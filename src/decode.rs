//! Reading conversations and messages out of the agent's JSON records.
use vstd::prelude::*;
use crate::conversation::{
    AmpContentBlock, AmpConversation, AmpMessage, AmpTextContentBlock, AmpThinkingContentBlock,
    AmpToolResultContentBlock, AmpToolUseContentBlock, BlockModel, MessageModel, blocks_model,
    messages_model,
};
use crate::inputs::{str_field, string_field};
use crate::json::{member, JsonModel, JsonValue};
use crate::text::str_eq;

verus! {

/// The content unit that a JSON record describes; the record's `type` member
/// names its kind.
pub open spec fn block_of(v: JsonModel) -> Option<BlockModel> {
    match str_field(v, "type"@) {
        Some(t) => if t == "text"@ {
            match str_field(v, "text"@) {
                Some(x) => Some(BlockModel::Text(x)),
                None => None,
            }
        } else if t == "thinking"@ {
            match str_field(v, "thinking"@) {
                Some(x) => Some(BlockModel::Thinking(x)),
                None => None,
            }
        } else if t == "tool_use"@ {
            match (str_field(v, "id"@), str_field(v, "name"@), member(v, "input"@)) {
                (Some(id), Some(name), Some(input)) => Some(BlockModel::ToolUse { id, name, input }),
                _ => None,
            }
        } else if t == "tool_result"@ {
            match (str_field(v, "toolUseID"@), member(v, "run"@)) {
                (Some(tool_use_id), Some(run)) => Some(BlockModel::ToolResult { tool_use_id, run }),
                _ => None,
            }
        } else {
            None
        },
        None => None,
    }
}

/// The units that a JSON array describes, where each element is one.
pub open spec fn blocks_of(items: Seq<JsonModel>) -> Option<Seq<BlockModel>> {
    if forall|i: int| 0 <= i < items.len() ==> (#[trigger] block_of(items[i])) is Some {
        Some(Seq::new(items.len(), |i: int| block_of(items[i])->Some_0))
    } else {
        None
    }
}

/// The message that a JSON record describes.
pub open spec fn message_of(v: JsonModel) -> Option<MessageModel> {
    match (str_field(v, "role"@), member(v, "content"@)) {
        (Some(role), Some(JsonModel::Array(items))) => match blocks_of(items) {
            Some(content) => Some(MessageModel { role, content }),
            None => None,
        },
        _ => None,
    }
}

/// The messages that a JSON array describes, where each element is one.
pub open spec fn messages_of(items: Seq<JsonModel>) -> Option<Seq<MessageModel>> {
    if forall|i: int| 0 <= i < items.len() ==> (#[trigger] message_of(items[i])) is Some {
        Some(Seq::new(items.len(), |i: int| message_of(items[i])->Some_0))
    } else {
        None
    }
}

/// The conversation that a snapshot record describes.
pub open spec fn conversation_of(v: JsonModel) -> Option<Seq<MessageModel>> {
    match member(v, "messages"@) {
        Some(JsonModel::Array(items)) => messages_of(items),
        _ => None,
    }
}

fn member_copy(v: &JsonValue, key: &str) -> (r: Option<JsonValue>)
    ensures
        match r {
            Some(x) => member(v@, key@) == Some(x@),
            None => member(v@, key@) is None,
        },
{
    match v.get(key) {
        Some(x) => Some(x.duplicate()),
        None => None,
    }
}

impl AmpContentBlock {
    pub fn from_json(v: &JsonValue) -> (r: Option<AmpContentBlock>)
        ensures
            match r {
                Some(b) => block_of(v@) == Some(b@),
                None => block_of(v@) is None,
            },
    {
        let t = match string_field(v, "type") {
            Some(t) => t,
            None => return None,
        };
        if str_eq(t.as_str(), "text") {
            match string_field(v, "text") {
                Some(text) => Some(AmpContentBlock::Text(AmpTextContentBlock { text })),
                None => None,
            }
        } else if str_eq(t.as_str(), "thinking") {
            match string_field(v, "thinking") {
                Some(thinking) => Some(AmpContentBlock::Thinking(AmpThinkingContentBlock { thinking })),
                None => None,
            }
        } else if str_eq(t.as_str(), "tool_use") {
            match (string_field(v, "id"), string_field(v, "name"), member_copy(v, "input")) {
                (Some(id), Some(name), Some(input)) => Some(
                    AmpContentBlock::ToolUse(AmpToolUseContentBlock { id, name, input }),
                ),
                _ => None,
            }
        } else if str_eq(t.as_str(), "tool_result") {
            match (string_field(v, "toolUseID"), member_copy(v, "run")) {
                (Some(tool_use_id), Some(run)) => Some(
                    AmpContentBlock::ToolResult(AmpToolResultContentBlock { tool_use_id, run }),
                ),
                _ => None,
            }
        } else {
            None
        }
    }
}

impl AmpMessage {
    #[verifier::loop_isolation(false)]
    pub fn from_json(v: &JsonValue) -> (r: Option<AmpMessage>)
        ensures
            match r {
                Some(m) => message_of(v@) == Some(m@),
                None => message_of(v@) is None,
            },
    {
        let role = match string_field(v, "role") {
            Some(role) => role,
            None => return None,
        };
        let items = match v.get("content") {
            Some(JsonValue::Array(items)) => items,
            _ => return None,
        };
        let ghost models = match member(v@, "content"@) {
            Some(JsonModel::Array(m)) => m,
            _ => Seq::empty(),
        };
        assert(models.len() == items.len());
        let mut content: Vec<AmpContentBlock> = Vec::new();
        let mut i: usize = 0;
        while i < items.len()
            invariant
                i <= items.len(),
                content.len() == i,
                forall|k: int| 0 <= k < i ==> block_of(models[k]) == Some((#[trigger] content[k])@),
            decreases items.len() - i,
        {
            assert(models[i as int] == items[i as int]@);
            match AmpContentBlock::from_json(&items[i]) {
                Some(b) => content.push(b),
                None => {
                    assert(block_of(models[i as int]) is None);
                    return None;
                },
            }
            i = i + 1;
        }
        assert forall|k: int| 0 <= k < models.len() implies (#[trigger] block_of(models[k])) is Some by {
            assert(block_of(models[k]) == Some(content[k]@));
        }
        assert(blocks_model(content@) =~= Seq::new(
            models.len(),
            |k: int| block_of(models[k])->Some_0,
        ));
        Some(AmpMessage { role, content })
    }
}

impl AmpConversation {
    /// The conversation that a snapshot record describes.
    #[verifier::loop_isolation(false)]
    pub fn from_json(v: &JsonValue) -> (r: Option<AmpConversation>)
        ensures
            match r {
                Some(c) => conversation_of(v@) == Some(c@),
                None => conversation_of(v@) is None,
            },
    {
        let items = match v.get("messages") {
            Some(JsonValue::Array(items)) => items,
            _ => return None,
        };
        let ghost models = match member(v@, "messages"@) {
            Some(JsonModel::Array(m)) => m,
            _ => Seq::empty(),
        };
        assert(models.len() == items.len());
        let mut messages: Vec<AmpMessage> = Vec::new();
        let mut i: usize = 0;
        while i < items.len()
            invariant
                i <= items.len(),
                messages.len() == i,
                forall|k: int|
                    0 <= k < i ==> message_of(models[k]) == Some((#[trigger] messages[k])@),
            decreases items.len() - i,
        {
            assert(models[i as int] == items[i as int]@);
            match AmpMessage::from_json(&items[i]) {
                Some(m) => messages.push(m),
                None => {
                    assert(message_of(models[i as int]) is None);
                    return None;
                },
            }
            i = i + 1;
        }
        assert forall|k: int| 0 <= k < models.len() implies (#[trigger] message_of(models[k])) is Some by {
            assert(message_of(models[k]) == Some(messages[k]@));
        }
        assert(messages_model(messages@) =~= Seq::new(
            models.len(),
            |k: int| message_of(models[k])->Some_0,
        ));
        Some(AmpConversation { messages })
    }
}

} // verus!
