//! The history of a session as remote clients show it.

use vstd::prelude::*;

use crate::json::JsonValue;
use crate::turn::TurnStatus;

verus! {

/// The largest image file that is read for remote clients.
pub const MAX_REMOTE_CHAT_IMAGE_SOURCE_BYTES: u64 = 16_777_216;

/// Whether an image file is read for remote clients: a file under an absolute
/// path, of no more than [`MAX_REMOTE_CHAT_IMAGE_SOURCE_BYTES`].
pub fn may_read_chat_image(is_absolute: bool, is_file: bool, size: u64) -> (r: bool)
    ensures
        r == (is_absolute && is_file && size <= MAX_REMOTE_CHAT_IMAGE_SOURCE_BYTES),
        r == (is_absolute && is_file && size <= 16 * 1024 * 1024),
{
    is_absolute && is_file && size <= MAX_REMOTE_CHAT_IMAGE_SOURCE_BYTES
}

/// A persisted piece of text or thinking.
#[derive(Debug)]
pub struct TextItemData {
    pub content: String,
    pub order_index: Option<usize>,
    pub is_subagent_item: Option<bool>,
}

/// A persisted tool call. The name and the input are those that took effect.
#[derive(Debug)]
pub struct ToolItemData {
    pub id: String,
    pub effective_name: String,
    pub call_id: String,
    pub effective_input: JsonValue,
    pub result: Option<JsonValue>,
    pub status: Option<String>,
    pub duration_ms: Option<u64>,
    pub start_time: u64,
    pub order_index: Option<usize>,
    pub is_subagent_item: Option<bool>,
}

/// A persisted round of a turn.
#[derive(Debug)]
pub struct ModelRoundData {
    pub start_time: u64,
    pub end_time: Option<u64>,
    pub text_items: Vec<TextItemData>,
    pub thinking_items: Vec<TextItemData>,
    pub tool_items: Vec<ToolItemData>,
}

/// A persisted turn as the chat history reads it. `user_content` is the user
/// content as it is shown, with its `images`.
#[derive(Debug)]
pub struct ChatSourceTurn<I> {
    pub turn_id: String,
    pub turn_index: usize,
    pub model_visible: bool,
    pub user_message_id: String,
    pub user_timestamp: u64,
    pub user_content: String,
    pub user_images: I,
    pub status: TurnStatus,
    pub error: Option<String>,
    pub start_time: u64,
    pub rounds: Vec<ModelRoundData>,
}

/// A piece of text or thinking in the chat history.
#[derive(Debug)]
pub struct RemoteChatHistoryTextItem {
    pub content: String,
    pub order_index: Option<usize>,
    pub is_subagent: bool,
}

/// A tool call in the chat history.
#[derive(Debug)]
pub struct RemoteChatHistoryToolItem {
    pub id: String,
    pub name: String,
    pub call_id: String,
    pub call_input: JsonValue,
    pub result: Option<JsonValue>,
    pub has_result: bool,
    pub status: Option<String>,
    pub duration_ms: Option<u64>,
    pub start_ms: u64,
    pub order_index: Option<usize>,
    pub is_subagent: bool,
}

/// A round in the chat history.
#[derive(Debug)]
pub struct RemoteChatHistoryRound {
    pub start_time_ms: u64,
    pub end_time_ms: Option<u64>,
    pub text_items: Vec<RemoteChatHistoryTextItem>,
    pub thinking_items: Vec<RemoteChatHistoryTextItem>,
    pub tool_items: Vec<RemoteChatHistoryToolItem>,
}

/// A turn in the chat history.
#[derive(Debug)]
pub struct RemoteChatHistoryTurn<I> {
    pub turn_id: String,
    pub turn_index: usize,
    pub user_message_id: String,
    pub user_display_content: String,
    pub user_timestamp_ms: u64,
    pub user_images: I,
    pub is_in_progress: bool,
    pub status: String,
    pub error: Option<String>,
    pub start_time_ms: u64,
    pub rounds: Vec<RemoteChatHistoryRound>,
}

/// The name of a turn's status.
pub open spec fn status_name(status: TurnStatus) -> Seq<char> {
    match status {
        TurnStatus::InProgress => "active"@,
        TurnStatus::Completed => "done"@,
        TurnStatus::Error => "failed"@,
        TurnStatus::Cancelled => "cancelled"@,
    }
}

/// Whether an item is a subagent's; one that does not say is not.
pub open spec fn from_subagent(mark: Option<bool>) -> bool {
    mark == Some(true)
}

/// Whether a piece of text is shown as it was persisted.
pub open spec fn shows_text(shown: RemoteChatHistoryTextItem, item: TextItemData) -> bool {
    &&& shown.content == item.content
    &&& shown.order_index == item.order_index
    &&& shown.is_subagent == from_subagent(item.is_subagent_item)
}

/// Whether pieces of text are shown as they were persisted.
pub open spec fn shows_texts(
    shown: Seq<RemoteChatHistoryTextItem>,
    items: Seq<TextItemData>,
) -> bool {
    shown.len() == items.len() && forall|i: int|
        0 <= i < items.len() ==> shows_text(#[trigger] shown[i], items[i])
}

/// Whether a tool call is shown as it was persisted.
pub open spec fn shows_tool(shown: RemoteChatHistoryToolItem, item: ToolItemData) -> bool {
    &&& shown.id == item.id
    &&& shown.name == item.effective_name
    &&& shown.call_id == item.call_id
    &&& shown.call_input == item.effective_input
    &&& shown.result == item.result
    &&& shown.has_result == (item.result is Some)
    &&& shown.status == item.status
    &&& shown.duration_ms == item.duration_ms
    &&& shown.start_ms == item.start_time
    &&& shown.order_index == item.order_index
    &&& shown.is_subagent == from_subagent(item.is_subagent_item)
}

/// Whether tool calls are shown as they were persisted.
pub open spec fn shows_tools(
    shown: Seq<RemoteChatHistoryToolItem>,
    items: Seq<ToolItemData>,
) -> bool {
    shown.len() == items.len() && forall|i: int|
        0 <= i < items.len() ==> shows_tool(#[trigger] shown[i], items[i])
}

/// Whether a round is shown as it was persisted.
pub open spec fn shows_round(shown: RemoteChatHistoryRound, round: ModelRoundData) -> bool {
    &&& shown.start_time_ms == round.start_time
    &&& shown.end_time_ms == round.end_time
    &&& shows_texts(shown.text_items@, round.text_items@)
    &&& shows_texts(shown.thinking_items@, round.thinking_items@)
    &&& shows_tools(shown.tool_items@, round.tool_items@)
}

/// Whether a turn is shown as it was persisted.
pub open spec fn shows_turn<I>(shown: RemoteChatHistoryTurn<I>, turn: ChatSourceTurn<I>) -> bool {
    &&& shown.turn_id == turn.turn_id
    &&& shown.turn_index == turn.turn_index
    &&& shown.user_message_id == turn.user_message_id
    &&& shown.user_display_content == turn.user_content
    &&& shown.user_timestamp_ms == turn.user_timestamp
    &&& shown.user_images == turn.user_images
    &&& shown.is_in_progress == (turn.status == TurnStatus::InProgress)
    &&& shown.status@ == status_name(turn.status)
    &&& shown.error == turn.error
    &&& shown.start_time_ms == turn.start_time
    &&& shown.rounds@.len() == turn.rounds@.len()
    &&& forall|i: int|
        0 <= i < turn.rounds@.len() ==> shows_round(#[trigger] shown.rounds@[i], turn.rounds@[i])
}

/// Whether an item is a subagent's.
fn is_from_subagent(mark: Option<bool>) -> (r: bool)
    ensures
        r == from_subagent(mark),
{
    match mark {
        Some(b) => b,
        None => false,
    }
}

/// Shows pieces of text.
fn show_texts(items: Vec<TextItemData>) -> (r: Vec<RemoteChatHistoryTextItem>)
    ensures
        shows_texts(r@, items@),
{
    let ghost all = items@;
    let mut r: Vec<RemoteChatHistoryTextItem> = Vec::new();
    for item in it: items
        invariant
            it.seq() == all,
            r@.len() == it.index(),
            forall|i: int| 0 <= i < r@.len() ==> shows_text(#[trigger] r@[i], all[i]),
    {
        assert(item == all[it.index() as int]);
        r.push(
            RemoteChatHistoryTextItem {
                content: item.content,
                order_index: item.order_index,
                is_subagent: is_from_subagent(item.is_subagent_item),
            },
        );
    }
    r
}

/// Shows tool calls.
fn show_tools(items: Vec<ToolItemData>) -> (r: Vec<RemoteChatHistoryToolItem>)
    ensures
        shows_tools(r@, items@),
{
    let ghost all = items@;
    let mut r: Vec<RemoteChatHistoryToolItem> = Vec::new();
    for item in it: items
        invariant
            it.seq() == all,
            r@.len() == it.index(),
            forall|i: int| 0 <= i < r@.len() ==> shows_tool(#[trigger] r@[i], all[i]),
    {
        assert(item == all[it.index() as int]);
        let has_result = item.result.is_some();
        r.push(
            RemoteChatHistoryToolItem {
                id: item.id,
                name: item.effective_name,
                call_id: item.call_id,
                call_input: item.effective_input,
                result: item.result,
                has_result,
                status: item.status,
                duration_ms: item.duration_ms,
                start_ms: item.start_time,
                order_index: item.order_index,
                is_subagent: is_from_subagent(item.is_subagent_item),
            },
        );
    }
    r
}

/// Shows rounds.
fn show_rounds(rounds: Vec<ModelRoundData>) -> (r: Vec<RemoteChatHistoryRound>)
    ensures
        r@.len() == rounds@.len(),
        forall|i: int| 0 <= i < rounds@.len() ==> shows_round(#[trigger] r@[i], rounds@[i]),
{
    let ghost all = rounds@;
    let mut r: Vec<RemoteChatHistoryRound> = Vec::new();
    for round in it: rounds
        invariant
            it.seq() == all,
            r@.len() == it.index(),
            forall|i: int| 0 <= i < r@.len() ==> shows_round(#[trigger] r@[i], all[i]),
    {
        assert(round == all[it.index() as int]);
        r.push(
            RemoteChatHistoryRound {
                start_time_ms: round.start_time,
                end_time_ms: round.end_time,
                text_items: show_texts(round.text_items),
                thinking_items: show_texts(round.thinking_items),
                tool_items: show_tools(round.tool_items),
            },
        );
    }
    r
}

/// Writes the name of a turn's status.
fn status_text(status: TurnStatus) -> (r: String)
    ensures
        r@ == status_name(status),
{
    match status {
        TurnStatus::InProgress => "active".to_owned(),
        TurnStatus::Completed => "done".to_owned(),
        TurnStatus::Error => "failed".to_owned(),
        TurnStatus::Cancelled => "cancelled".to_owned(),
    }
}

/// Shows a turn.
pub fn remote_chat_history_turn_from_core_turn<I>(turn: ChatSourceTurn<I>) -> (r:
    RemoteChatHistoryTurn<I>)
    ensures
        shows_turn(r, turn),
{
    RemoteChatHistoryTurn {
        turn_id: turn.turn_id,
        turn_index: turn.turn_index,
        user_message_id: turn.user_message_id,
        user_display_content: turn.user_content,
        user_timestamp_ms: turn.user_timestamp,
        user_images: turn.user_images,
        is_in_progress: turn.status == TurnStatus::InProgress,
        status: status_text(turn.status),
        error: turn.error,
        start_time_ms: turn.start_time,
        rounds: show_rounds(turn.rounds),
    }
}

/// The turns that the model saw, in order.
pub open spec fn model_visible_turns<I>(turns: Seq<ChatSourceTurn<I>>) -> Seq<ChatSourceTurn<I>>
    decreases turns.len(),
{
    if turns.len() == 0 {
        Seq::empty()
    } else if turns.last().model_visible {
        model_visible_turns(turns.drop_last()).push(turns.last())
    } else {
        model_visible_turns(turns.drop_last())
    }
}

/// Shows the turns that the model saw; turns of maintenance are left out.
pub fn remote_chat_history_turns<I>(turns: Vec<ChatSourceTurn<I>>) -> (r: Vec<
    RemoteChatHistoryTurn<I>,
>)
    ensures
        r@.len() == model_visible_turns(turns@).len(),
        forall|i: int|
            0 <= i < r@.len() ==> shows_turn(#[trigger] r@[i], model_visible_turns(turns@)[i]),
{
    let ghost all = turns@;
    let mut r: Vec<RemoteChatHistoryTurn<I>> = Vec::new();
    assert(all.take(0) =~= Seq::<ChatSourceTurn<I>>::empty());
    for turn in it: turns
        invariant
            it.seq() == all,
            r@.len() == model_visible_turns(all.take(it.index() as int)).len(),
            forall|i: int|
                0 <= i < r@.len() ==> shows_turn(
                    #[trigger] r@[i],
                    model_visible_turns(all.take(it.index() as int))[i],
                ),
    {
        let ghost at = it.index() as int;
        assert(turn == all[at]);
        assert(all.take(at + 1).drop_last() =~= all.take(at));
        assert(all.take(at + 1).last() == all[at]);
        if turn.model_visible {
            r.push(remote_chat_history_turn_from_core_turn(turn));
        }
    }
    assert(all.take(all.len() as int) =~= all);
    r
}

/// The name of a status tells the four apart: a turn that goes on is active, and
/// one that ended is done, failed or cancelled.
pub proof fn status_names_tell_how_a_turn_ended(status: TurnStatus)
    ensures
        status == TurnStatus::InProgress <==> status_name(status) == seq![
            'a',
            'c',
            't',
            'i',
            'v',
            'e',
        ],
        status == TurnStatus::Completed <==> status_name(status) == seq!['d', 'o', 'n', 'e'],
        status == TurnStatus::Error <==> status_name(status) == seq!['f', 'a', 'i', 'l', 'e', 'd'],
        status == TurnStatus::Cancelled <==> status_name(status) == seq![
            'c',
            'a',
            'n',
            'c',
            'e',
            'l',
            'l',
            'e',
            'd',
        ],
{
    reveal_strlit("active");
    reveal_strlit("done");
    reveal_strlit("failed");
    reveal_strlit("cancelled");
    let active = seq!['a', 'c', 't', 'i', 'v', 'e'];
    let done = seq!['d', 'o', 'n', 'e'];
    let failed = seq!['f', 'a', 'i', 'l', 'e', 'd'];
    let cancelled = seq!['c', 'a', 'n', 'c', 'e', 'l', 'l', 'e', 'd'];
    assert("active"@ =~= active);
    assert("done"@ =~= done);
    assert("failed"@ =~= failed);
    assert("cancelled"@ =~= cancelled);
    assert(active[0] != failed[0]);
    assert(active.len() == 6 && done.len() == 4 && failed.len() == 6 && cancelled.len() == 9);
}

/// The turns that are shown are those that the model saw, each by itself, in
/// their order.
pub proof fn only_turns_that_the_model_saw_are_shown<I>(
    a: Seq<ChatSourceTurn<I>>,
    b: Seq<ChatSourceTurn<I>>,
    turn: ChatSourceTurn<I>,
)
    ensures
        model_visible_turns(a + b) == model_visible_turns(a) + model_visible_turns(b),
        turn.model_visible ==> model_visible_turns(seq![turn]) == seq![turn],
        !turn.model_visible ==> model_visible_turns(seq![turn]).len() == 0,
    decreases b.len(),
{
    let one = seq![turn];
    assert(one.drop_last() =~= Seq::<ChatSourceTurn<I>>::empty());
    assert(model_visible_turns(one.drop_last()) =~= Seq::<ChatSourceTurn<I>>::empty());
    assert(Seq::<ChatSourceTurn<I>>::empty().push(turn) =~= one);
    if b.len() == 0 {
        assert(a + b =~= a);
    } else {
        only_turns_that_the_model_saw_are_shown(a, b.drop_last(), turn);
        assert((a + b).drop_last() =~= a + b.drop_last());
        assert((a + b).last() == b.last());
    }
    assert(model_visible_turns(a + b) =~= model_visible_turns(a) + model_visible_turns(b));
}

/// A shown turn is the persisted one: its ids, its user's words and images, its
/// times and its error are kept, it is in progress exactly when it is, and every
/// round is shown in its place.
pub proof fn a_shown_turn_is_the_persisted_one<I>(
    shown: RemoteChatHistoryTurn<I>,
    turn: ChatSourceTurn<I>,
)
    requires
        shows_turn(shown, turn),
    ensures
        shown.turn_id@ == turn.turn_id@,
        shown.turn_index == turn.turn_index,
        shown.user_message_id@ == turn.user_message_id@,
        shown.user_display_content@ == turn.user_content@,
        shown.user_timestamp_ms == turn.user_timestamp,
        shown.user_images == turn.user_images,
        shown.error == turn.error,
        shown.start_time_ms == turn.start_time,
        shown.is_in_progress <==> turn.status == TurnStatus::InProgress,
        shown.status@ == status_name(turn.status),
        shown.rounds@.len() == turn.rounds@.len(),
        forall|i: int|
            0 <= i < turn.rounds@.len() ==> shows_round(
                #[trigger] shown.rounds@[i],
                turn.rounds@[i],
            ),
{
}

/// A shown round keeps its times and shows every text, thought and tool call in
/// its place; an item is a subagent's only when it says so, and a tool call has a
/// result exactly when one was persisted.
pub proof fn a_shown_round_is_the_persisted_one(
    shown: RemoteChatHistoryRound,
    round: ModelRoundData,
)
    requires
        shows_round(shown, round),
    ensures
        shown.start_time_ms == round.start_time,
        shown.end_time_ms == round.end_time,
        shown.text_items@.len() == round.text_items@.len(),
        forall|i: int|
            0 <= i < round.text_items@.len() ==> {
                &&& (#[trigger] shown.text_items@[i]).content@ == round.text_items@[i].content@
                &&& shown.text_items@[i].order_index == round.text_items@[i].order_index
                &&& shown.text_items@[i].is_subagent <==> round.text_items@[i].is_subagent_item
                    == Some(true)
            },
        shown.thinking_items@.len() == round.thinking_items@.len(),
        forall|i: int|
            0 <= i < round.thinking_items@.len() ==> {
                &&& (#[trigger] shown.thinking_items@[i]).content@
                    == round.thinking_items@[i].content@
                &&& shown.thinking_items@[i].order_index == round.thinking_items@[i].order_index
                &&& shown.thinking_items@[i].is_subagent
                    <==> round.thinking_items@[i].is_subagent_item == Some(true)
            },
        shown.tool_items@.len() == round.tool_items@.len(),
        forall|i: int|
            0 <= i < round.tool_items@.len() ==> {
                let item = round.tool_items@[i];
                &&& (#[trigger] shown.tool_items@[i]).id@ == item.id@
                &&& shown.tool_items@[i].name@ == item.effective_name@
                &&& shown.tool_items@[i].call_id@ == item.call_id@
                &&& shown.tool_items@[i].call_input@ == item.effective_input@
                &&& shown.tool_items@[i].result == item.result
                &&& shown.tool_items@[i].has_result <==> item.result is Some
                &&& shown.tool_items@[i].status == item.status
                &&& shown.tool_items@[i].duration_ms == item.duration_ms
                &&& shown.tool_items@[i].start_ms == item.start_time
                &&& shown.tool_items@[i].order_index == item.order_index
                &&& shown.tool_items@[i].is_subagent <==> item.is_subagent_item == Some(true)
            },
{
    assert forall|i: int| 0 <= i < round.text_items@.len() implies {
        &&& (#[trigger] shown.text_items@[i]).content@ == round.text_items@[i].content@
        &&& shown.text_items@[i].order_index == round.text_items@[i].order_index
        &&& shown.text_items@[i].is_subagent <==> round.text_items@[i].is_subagent_item == Some(
            true,
        )
    } by {
        assert(shows_text(shown.text_items@[i], round.text_items@[i]));
    }
    assert forall|i: int| 0 <= i < round.thinking_items@.len() implies {
        &&& (#[trigger] shown.thinking_items@[i]).content@ == round.thinking_items@[i].content@
        &&& shown.thinking_items@[i].order_index == round.thinking_items@[i].order_index
        &&& shown.thinking_items@[i].is_subagent <==> round.thinking_items@[i].is_subagent_item
            == Some(true)
    } by {
        assert(shows_text(shown.thinking_items@[i], round.thinking_items@[i]));
    }
}

} // verus!
