//! Conversations as the agent records them, and the difference between two
//! observations of one conversation.
use vstd::prelude::*;
use crate::json::{JsonModel, JsonValue};
use crate::text::chars_of;

verus! {

pub struct AmpTextContentBlock {
    pub text: String,
}

pub struct AmpThinkingContentBlock {
    pub thinking: String,
}

/// A tool invocation: `name` is the tool's raw identifier.
pub struct AmpToolUseContentBlock {
    pub id: String,
    pub name: String,
    pub input: JsonValue,
}

/// The output of the invocation whose id is `tool_use_id`.
pub struct AmpToolResultContentBlock {
    pub tool_use_id: String,
    pub run: JsonValue,
}

/// One content unit of a message.
pub enum AmpContentBlock {
    Text(AmpTextContentBlock),
    Thinking(AmpThinkingContentBlock),
    ToolUse(AmpToolUseContentBlock),
    ToolResult(AmpToolResultContentBlock),
}

pub struct AmpMessage {
    pub role: String,
    pub content: Vec<AmpContentBlock>,
}

/// The whole transcript, in order.
pub struct AmpConversation {
    pub messages: Vec<AmpMessage>,
}

/// Why two observations of a conversation cannot be diffed.
#[derive(Debug, Clone, Copy, PartialEq, Eq, Structural)]
pub enum DiffError {
    /// The later observation holds fewer messages, or fewer content units in
    /// a message, than the earlier one.
    InvariantViolation,
    /// Two messages at the same index have different roles.
    UnsupportedTranscriptShape,
}

pub enum BlockModel {
    Text(Seq<char>),
    Thinking(Seq<char>),
    ToolUse { id: Seq<char>, name: Seq<char>, input: JsonModel },
    ToolResult { tool_use_id: Seq<char>, run: JsonModel },
}

pub struct MessageModel {
    pub role: Seq<char>,
    pub content: Seq<BlockModel>,
}

impl View for AmpContentBlock {
    type V = BlockModel;

    open spec fn view(&self) -> BlockModel {
        match self {
            AmpContentBlock::Text(b) => BlockModel::Text(b.text@),
            AmpContentBlock::Thinking(b) => BlockModel::Thinking(b.thinking@),
            AmpContentBlock::ToolUse(b) => BlockModel::ToolUse {
                id: b.id@,
                name: b.name@,
                input: b.input@,
            },
            AmpContentBlock::ToolResult(b) => BlockModel::ToolResult {
                tool_use_id: b.tool_use_id@,
                run: b.run@,
            },
        }
    }
}

pub open spec fn blocks_model(v: Seq<AmpContentBlock>) -> Seq<BlockModel> {
    v.map_values(|b: AmpContentBlock| b@)
}

impl View for AmpMessage {
    type V = MessageModel;

    open spec fn view(&self) -> MessageModel {
        MessageModel { role: self.role@, content: blocks_model(self.content@) }
    }
}

pub open spec fn messages_model(v: Seq<AmpMessage>) -> Seq<MessageModel> {
    v.map_values(|m: AmpMessage| m@)
}

impl View for AmpConversation {
    type V = Seq<MessageModel>;

    open spec fn view(&self) -> Seq<MessageModel> {
        messages_model(self.messages@)
    }
}

/// `p` is a prefix of `s`.
pub open spec fn starts_with(s: Seq<char>, p: Seq<char>) -> bool {
    p.len() <= s.len() && s.subrange(0, p.len() as int) == p
}

/// What is new in a text field that went from `old` to `new`: the appended
/// suffix where `new` extends `old`, else all of `new`.
pub open spec fn delta_text(old: Seq<char>, new: Seq<char>) -> Seq<char> {
    if starts_with(new, old) {
        new.subrange(old.len() as int, new.len() as int)
    } else {
        new
    }
}

/// The unseen part of a content unit that went from `a` to `b`.
pub open spec fn block_diff(a: BlockModel, b: BlockModel) -> Option<BlockModel> {
    match (a, b) {
        (BlockModel::Text(x), BlockModel::Text(y)) => if x == y {
            None
        } else {
            Some(BlockModel::Text(delta_text(x, y)))
        },
        (BlockModel::Thinking(x), BlockModel::Thinking(y)) => if x == y {
            None
        } else {
            Some(BlockModel::Thinking(delta_text(x, y)))
        },
        (BlockModel::ToolUse { .. }, BlockModel::ToolUse { .. }) => if a == b {
            None
        } else {
            Some(b)
        },
        _ => None,
    }
}

/// The unit diffs of the first `n` aligned pairs, in order, with the
/// unchanged ones left out.
pub open spec fn block_diffs(xs: Seq<BlockModel>, ys: Seq<BlockModel>, n: nat) -> Seq<BlockModel>
    decreases n,
{
    if n == 0 {
        Seq::empty()
    } else {
        let acc = block_diffs(xs, ys, (n - 1) as nat);
        match block_diff(xs[n - 1], ys[n - 1]) {
            Some(d) => acc.push(d),
            None => acc,
        }
    }
}

/// The unseen part of a message that went from `a` to `b`: `None` where
/// there is none.
pub open spec fn message_diff(a: MessageModel, b: MessageModel) -> Result<
    Option<MessageModel>,
    DiffError,
> {
    if a.role != b.role {
        Err(DiffError::UnsupportedTranscriptShape)
    } else if b.content.len() < a.content.len() {
        Err(DiffError::InvariantViolation)
    } else {
        let content = block_diffs(a.content, b.content, a.content.len())
            + b.content.subrange(a.content.len() as int, b.content.len() as int);
        if content.len() == 0 {
            Ok(None)
        } else {
            Ok(Some(MessageModel { role: a.role, content }))
        }
    }
}

/// The message diffs of the first `n` aligned pairs, in order, with the
/// unchanged ones left out; the first failure where one fails.
pub open spec fn message_diffs(xs: Seq<MessageModel>, ys: Seq<MessageModel>, n: nat) -> Result<
    Seq<MessageModel>,
    DiffError,
>
    decreases n,
{
    if n == 0 {
        Ok(Seq::empty())
    } else {
        match message_diffs(xs, ys, (n - 1) as nat) {
            Err(e) => Err(e),
            Ok(acc) => match message_diff(xs[n - 1], ys[n - 1]) {
                Err(e) => Err(e),
                Ok(Some(d)) => Ok(acc.push(d)),
                Ok(None) => Ok(acc),
            },
        }
    }
}

/// The unseen part of a conversation that went from `a` to `b`: the diffs of
/// the aligned messages, then the new messages in order; `None` where
/// nothing is new.
pub open spec fn conversation_diff(a: Seq<MessageModel>, b: Seq<MessageModel>) -> Result<
    Option<Seq<MessageModel>>,
    DiffError,
> {
    if b.len() < a.len() {
        Err(DiffError::InvariantViolation)
    } else {
        match message_diffs(a, b, a.len()) {
            Err(e) => Err(e),
            Ok(ds) => {
                let all = ds + b.subrange(a.len() as int, b.len() as int);
                if all.len() == 0 {
                    Ok(None)
                } else {
                    Ok(Some(all))
                }
            },
        }
    }
}

/// What is new in a text field, and whether the field grew by appending.
pub enum TextDelta {
    /// The field kept its old text and grew by this suffix.
    Appended(String),
    /// The field's earlier text changed; this is all of the new text.
    Rewritten(String),
}

impl TextDelta {
    pub fn text(self) -> (r: String)
        ensures
            r@ == match self {
                TextDelta::Appended(s) => s@,
                TextDelta::Rewritten(s) => s@,
            },
    {
        match self {
            TextDelta::Appended(s) => s,
            TextDelta::Rewritten(s) => s,
        }
    }
}

/// Compares a text field's old and new value: the appended suffix where the
/// new text extends the old one, else the whole new text, flagged.
pub fn text_delta(old: &str, new: &str) -> (r: TextDelta)
    ensures
        r is Appended <==> starts_with(new@, old@),
        match r {
            TextDelta::Appended(s) => s@ == delta_text(old@, new@),
            TextDelta::Rewritten(s) => s@ == delta_text(old@, new@),
        },
{
    let o = chars_of(old);
    let n = chars_of(new);
    if o.len() > n.len() {
        return TextDelta::Rewritten(String::from_str(new));
    }
    let mut i: usize = 0;
    while i < o.len()
        invariant
            o@ == old@,
            n@ == new@,
            o.len() <= n.len(),
            i <= o.len(),
            forall|k: int| 0 <= k < i ==> o@[k] == n@[k],
        decreases o.len() - i,
    {
        if o[i] != n[i] {
            assert(new@.subrange(0, old@.len() as int)[i as int] != old@[i as int]);
            return TextDelta::Rewritten(String::from_str(new));
        }
        i = i + 1;
    }
    assert(new@.subrange(0, old@.len() as int) =~= old@);
    TextDelta::Appended(String::from_str(new.substring_char(o.len(), n.len())))
}

impl AmpContentBlock {
    /// A copy of this unit.
    pub fn duplicate(&self) -> (r: AmpContentBlock)
        ensures
            r@ == self@,
    {
        match self {
            AmpContentBlock::Text(b) => AmpContentBlock::Text(
                AmpTextContentBlock { text: b.text.clone() },
            ),
            AmpContentBlock::Thinking(b) => AmpContentBlock::Thinking(
                AmpThinkingContentBlock { thinking: b.thinking.clone() },
            ),
            AmpContentBlock::ToolUse(b) => AmpContentBlock::ToolUse(
                AmpToolUseContentBlock {
                    id: b.id.clone(),
                    name: b.name.clone(),
                    input: b.input.duplicate(),
                },
            ),
            AmpContentBlock::ToolResult(b) => AmpContentBlock::ToolResult(
                AmpToolResultContentBlock {
                    tool_use_id: b.tool_use_id.clone(),
                    run: b.run.duplicate(),
                },
            ),
        }
    }
}

impl AmpMessage {
    /// A copy of this message.
    pub fn duplicate(&self) -> (r: AmpMessage)
        ensures
            r@ == self@,
    {
        let mut content: Vec<AmpContentBlock> = Vec::new();
        let mut i: usize = 0;
        while i < self.content.len()
            invariant
                i <= self.content.len(),
                blocks_model(content@) == blocks_model(self.content@.take(i as int)),
            decreases self.content.len() - i,
        {
            let b = self.content[i].duplicate();
            proof {
                assert(blocks_model(content@.push(b)) =~= blocks_model(content@).push(b@));
                assert(blocks_model(self.content@.take(i + 1)) =~= blocks_model(
                    self.content@.take(i as int),
                ).push(self.content@[i as int]@));
            }
            content.push(b);
            i = i + 1;
        }
        assert(self.content@.take(self.content.len() as int) =~= self.content@);
        AmpMessage { role: self.role.clone(), content }
    }
}

/// Computing what one observation adds to an earlier one.
pub trait AmpDiff<T>: Sized {
    /// Whether `r` is what diffing `self` against the later `other` gives.
    spec fn diff_result(&self, other: &T, r: Result<Option<T>, DiffError>) -> bool;

    /// The part of `other` that `self` has not shown yet; `None` where
    /// nothing is new.
    fn diff(&self, other: &T) -> (r: Result<Option<T>, DiffError>)
        ensures
            self.diff_result(other, r),
    ;
}

impl AmpDiff<AmpContentBlock> for AmpContentBlock {
    open spec fn diff_result(
        &self,
        other: &AmpContentBlock,
        r: Result<Option<AmpContentBlock>, DiffError>,
    ) -> bool {
        match r {
            Ok(Some(d)) => block_diff(self@, other@) == Some(d@),
            Ok(None) => block_diff(self@, other@) is None,
            Err(_) => false,
        }
    }

    fn diff(&self, other: &AmpContentBlock) -> (r: Result<Option<AmpContentBlock>, DiffError>) {
        match (self, other) {
            (AmpContentBlock::Text(a), AmpContentBlock::Text(b)) => {
                if a.text == b.text {
                    Ok(None)
                } else {
                    let text = text_delta(a.text.as_str(), b.text.as_str()).text();
                    Ok(Some(AmpContentBlock::Text(AmpTextContentBlock { text })))
                }
            },
            (AmpContentBlock::Thinking(a), AmpContentBlock::Thinking(b)) => {
                if a.thinking == b.thinking {
                    Ok(None)
                } else {
                    let thinking = text_delta(a.thinking.as_str(), b.thinking.as_str()).text();
                    Ok(Some(AmpContentBlock::Thinking(AmpThinkingContentBlock { thinking })))
                }
            },
            (AmpContentBlock::ToolUse(a), AmpContentBlock::ToolUse(b)) => {
                if a.id == b.id && a.name == b.name && a.input.same(&b.input) {
                    Ok(None)
                } else {
                    Ok(Some(other.duplicate()))
                }
            },
            _ => Ok(None),
        }
    }
}

impl AmpDiff<AmpMessage> for AmpMessage {
    open spec fn diff_result(
        &self,
        other: &AmpMessage,
        r: Result<Option<AmpMessage>, DiffError>,
    ) -> bool {
        match r {
            Ok(Some(d)) => message_diff(self@, other@) == Ok::<_, DiffError>(Some(d@)),
            Ok(None) => message_diff(self@, other@) == Ok::<Option<MessageModel>, DiffError>(None),
            Err(e) => message_diff(self@, other@) == Err::<Option<MessageModel>, _>(e),
        }
    }

    fn diff(&self, other: &AmpMessage) -> (r: Result<Option<AmpMessage>, DiffError>) {
        if self.role != other.role {
            return Err(DiffError::UnsupportedTranscriptShape);
        }
        if other.content.len() < self.content.len() {
            return Err(DiffError::InvariantViolation);
        }
        let ghost xs = self@.content;
        let ghost ys = other@.content;
        let mut content: Vec<AmpContentBlock> = Vec::new();
        let mut i: usize = 0;
        while i < self.content.len()
            invariant
                i <= self.content.len() <= other.content.len(),
                xs == blocks_model(self.content@),
                ys == blocks_model(other.content@),
                blocks_model(content@) == block_diffs(xs, ys, i as nat),
            decreases self.content.len() - i,
        {
            let d = self.content[i].diff(&other.content[i]);
            match d {
                Ok(Some(b)) => {
                    proof {
                        assert(blocks_model(content@.push(b)) =~= blocks_model(content@).push(b@));
                    }
                    content.push(b);
                },
                _ => {},
            }
            i = i + 1;
        }
        let ghost head = blocks_model(content@);
        let mut j: usize = self.content.len();
        while j < other.content.len()
            invariant
                self.content.len() <= j <= other.content.len(),
                ys == blocks_model(other.content@),
                blocks_model(content@) == head + ys.subrange(
                    self.content.len() as int,
                    j as int,
                ),
            decreases other.content.len() - j,
        {
            let b = other.content[j].duplicate();
            proof {
                assert(blocks_model(content@.push(b)) =~= blocks_model(content@).push(b@));
                assert(head + ys.subrange(self.content.len() as int, j + 1) =~= (head
                    + ys.subrange(self.content.len() as int, j as int)).push(ys[j as int]));
            }
            content.push(b);
            j = j + 1;
        }
        if content.len() == 0 {
            Ok(None)
        } else {
            let m = AmpMessage { role: self.role.clone(), content };
            Ok(Some(m))
        }
    }
}

impl AmpDiff<AmpConversation> for AmpConversation {
    open spec fn diff_result(
        &self,
        other: &AmpConversation,
        r: Result<Option<AmpConversation>, DiffError>,
    ) -> bool {
        match r {
            Ok(Some(d)) => conversation_diff(self@, other@) == Ok::<_, DiffError>(Some(d@)),
            Ok(None) => conversation_diff(self@, other@) == Ok::<
                Option<Seq<MessageModel>>,
                DiffError,
            >(None),
            Err(e) => conversation_diff(self@, other@) == Err::<Option<Seq<MessageModel>>, _>(e),
        }
    }

    fn diff(&self, other: &AmpConversation) -> (r: Result<Option<AmpConversation>, DiffError>) {
        if other.messages.len() < self.messages.len() {
            return Err(DiffError::InvariantViolation);
        }
        let ghost xs = self@;
        let ghost ys = other@;
        let mut out: Vec<AmpMessage> = Vec::new();
        assert(messages_model(out@) =~= Seq::<MessageModel>::empty());
        let mut i: usize = 0;
        while i < self.messages.len()
            invariant
                i <= self.messages.len() <= other.messages.len(),
                xs == messages_model(self.messages@),
                ys == messages_model(other.messages@),
                message_diffs(xs, ys, i as nat) == Ok::<_, DiffError>(messages_model(out@)),
            decreases self.messages.len() - i,
        {
            let d = self.messages[i].diff(&other.messages[i]);
            match d {
                Err(e) => {
                    proof {
                        lemma_message_diffs_fail(xs, ys, (i + 1) as nat, xs.len());
                    }
                    return Err(e);
                },
                Ok(Some(m)) => {
                    proof {
                        assert(messages_model(out@.push(m)) =~= messages_model(out@).push(m@));
                    }
                    out.push(m);
                },
                Ok(None) => {},
            }
            i = i + 1;
        }
        let ghost head = messages_model(out@);
        assert(head + ys.subrange(self.messages.len() as int, self.messages.len() as int) =~= head);
        let mut j: usize = self.messages.len();
        while j < other.messages.len()
            invariant
                self.messages.len() <= j <= other.messages.len(),
                ys == messages_model(other.messages@),
                messages_model(out@) == head + ys.subrange(self.messages.len() as int, j as int),
            decreases other.messages.len() - j,
        {
            let m = other.messages[j].duplicate();
            proof {
                assert(messages_model(out@.push(m)) =~= messages_model(out@).push(m@));
                assert(head + ys.subrange(self.messages.len() as int, j + 1) =~= (head
                    + ys.subrange(self.messages.len() as int, j as int)).push(ys[j as int]));
            }
            out.push(m);
            j = j + 1;
        }
        if out.len() == 0 {
            Ok(None)
        } else {
            Ok(Some(AmpConversation { messages: out }))
        }
    }
}

/// Once the diff of an aligned pair fails, the diffs of every longer prefix
/// fail the same way.
proof fn lemma_message_diffs_fail(xs: Seq<MessageModel>, ys: Seq<MessageModel>, n: nat, m: nat)
    requires
        0 < n <= m,
        message_diffs(xs, ys, (n - 1) as nat) is Ok,
        message_diff(xs[n - 1], ys[n - 1]) is Err,
    ensures
        message_diffs(xs, ys, m) == Err::<Seq<MessageModel>, _>(
            message_diff(xs[n - 1], ys[n - 1])->Err_0,
        ),
    decreases m,
{
    if m > n {
        lemma_message_diffs_fail(xs, ys, n, (m - 1) as nat);
    }
}

/// A unit whose text, where it has one, is extended by `s`.
pub open spec fn grow_block(b: BlockModel, s: Seq<char>) -> BlockModel {
    match b {
        BlockModel::Text(t) => BlockModel::Text(t + s),
        BlockModel::Thinking(t) => BlockModel::Thinking(t + s),
        _ => b,
    }
}

/// The unit of the same kind as `b` that carries just the text `s`.
pub open spec fn text_piece(b: BlockModel, s: Seq<char>) -> BlockModel {
    match b {
        BlockModel::Thinking(_) => BlockModel::Thinking(s),
        _ => BlockModel::Text(s),
    }
}

/// The appended texts of the first `n` units, each as a unit of its own
/// kind, in order; units that did not grow, or hold no text, are left out.
pub open spec fn appended_parts(units: Seq<BlockModel>, added: Seq<Seq<char>>, n: nat) -> Seq<
    BlockModel,
>
    decreases n,
{
    if n == 0 {
        Seq::empty()
    } else {
        let acc = appended_parts(units, added, (n - 1) as nat);
        let b = units[n - 1];
        if added[n - 1].len() > 0 && (b is Text || b is Thinking) {
            acc.push(text_piece(b, added[n - 1]))
        } else {
            acc
        }
    }
}

/// `a` with the text of each unit of its last message extended by the
/// matching entry of `added`, `new_units` appended to that message, and
/// `new_messages` appended to the conversation.
pub open spec fn grown_conversation(
    a: Seq<MessageModel>,
    added: Seq<Seq<char>>,
    new_units: Seq<BlockModel>,
    new_messages: Seq<MessageModel>,
) -> Seq<MessageModel> {
    let last = a.last();
    let grown = MessageModel {
        role: last.role,
        content: Seq::new(last.content.len(), |k: int| grow_block(last.content[k], added[k]))
            + new_units,
    };
    a.drop_last().push(grown) + new_messages
}

/// What diffing `a` against its grown form gives: the appended texts and
/// units of the last message, as one message, then the new messages.
pub open spec fn growth_of(
    a: Seq<MessageModel>,
    added: Seq<Seq<char>>,
    new_units: Seq<BlockModel>,
    new_messages: Seq<MessageModel>,
) -> Option<Seq<MessageModel>> {
    let last = a.last();
    let parts = appended_parts(last.content, added, last.content.len()) + new_units;
    let head = if parts.len() == 0 {
        Seq::<MessageModel>::empty()
    } else {
        seq![MessageModel { role: last.role, content: parts }]
    };
    let all = head + new_messages;
    if all.len() == 0 {
        None
    } else {
        Some(all)
    }
}

proof fn lemma_block_diff_same(b: BlockModel)
    ensures
        block_diff(b, b) is None,
{
}

proof fn lemma_block_diffs_same(xs: Seq<BlockModel>, n: nat)
    requires
        n <= xs.len(),
    ensures
        block_diffs(xs, xs, n) == Seq::<BlockModel>::empty(),
    decreases n,
{
    if n > 0 {
        lemma_block_diffs_same(xs, (n - 1) as nat);
        lemma_block_diff_same(xs[n - 1]);
    }
}

proof fn lemma_message_diff_same(m: MessageModel)
    ensures
        message_diff(m, m) == Ok::<Option<MessageModel>, DiffError>(None),
{
    lemma_block_diffs_same(m.content, m.content.len());
    assert(m.content.subrange(m.content.len() as int, m.content.len() as int) =~= Seq::<
        BlockModel,
    >::empty());
    assert(Seq::<BlockModel>::empty() + Seq::<BlockModel>::empty() =~= Seq::<
        BlockModel,
    >::empty());
}

proof fn lemma_message_diffs_same(xs: Seq<MessageModel>, ys: Seq<MessageModel>, n: nat)
    requires
        n <= xs.len(),
        n <= ys.len(),
        forall|i: int| 0 <= i < n ==> xs[i] == ys[i],
    ensures
        message_diffs(xs, ys, n) == Ok::<_, DiffError>(Seq::<MessageModel>::empty()),
    decreases n,
{
    if n > 0 {
        lemma_message_diffs_same(xs, ys, (n - 1) as nat);
        lemma_message_diff_same(xs[n - 1]);
    }
}

/// A conversation diffed against itself shows nothing new.
pub proof fn lemma_diff_of_same(a: Seq<MessageModel>)
    ensures
        conversation_diff(a, a) == Ok::<Option<Seq<MessageModel>>, DiffError>(None),
{
    lemma_message_diffs_same(a, a, a.len());
    assert(a.subrange(a.len() as int, a.len() as int) =~= Seq::<MessageModel>::empty());
    assert(Seq::<MessageModel>::empty() + Seq::<MessageModel>::empty() =~= Seq::<
        MessageModel,
    >::empty());
}

proof fn lemma_block_diff_grow(b: BlockModel, s: Seq<char>)
    ensures
        block_diff(b, grow_block(b, s)) == if s.len() > 0 && (b is Text || b is Thinking) {
            Some(text_piece(b, s))
        } else {
            None
        },
{
    match b {
        BlockModel::Text(t) => {
            assert((t + s).subrange(0, t.len() as int) =~= t);
            assert((t + s).subrange(t.len() as int, (t + s).len() as int) =~= s);
            if s.len() == 0 {
                assert(t + s =~= t);
            } else {
                assert((t + s).len() != t.len());
            }
        },
        BlockModel::Thinking(t) => {
            assert((t + s).subrange(0, t.len() as int) =~= t);
            assert((t + s).subrange(t.len() as int, (t + s).len() as int) =~= s);
            if s.len() == 0 {
                assert(t + s =~= t);
            } else {
                assert((t + s).len() != t.len());
            }
        },
        _ => {},
    }
}

proof fn lemma_block_diffs_grow(
    xs: Seq<BlockModel>,
    ys: Seq<BlockModel>,
    added: Seq<Seq<char>>,
    n: nat,
)
    requires
        n <= xs.len(),
        n <= ys.len(),
        forall|k: int| 0 <= k < n ==> ys[k] == grow_block(xs[k], added[k]),
    ensures
        block_diffs(xs, ys, n) == appended_parts(xs, added, n),
    decreases n,
{
    if n > 0 {
        lemma_block_diffs_grow(xs, ys, added, (n - 1) as nat);
        lemma_block_diff_grow(xs[n - 1], added[n - 1]);
    }
}

/// Growth by appending: where `b` is `a` with text appended to the units of
/// its last message, new units appended to that message and new messages
/// appended after it, the diff of `a` and `b` is exactly the appended text
/// and the appended units and messages, in order.
pub proof fn lemma_diff_of_growth(
    a: Seq<MessageModel>,
    added: Seq<Seq<char>>,
    new_units: Seq<BlockModel>,
    new_messages: Seq<MessageModel>,
)
    requires
        a.len() > 0,
        added.len() == a.last().content.len(),
    ensures
        conversation_diff(a, grown_conversation(a, added, new_units, new_messages)) == Ok::<
            _,
            DiffError,
        >(growth_of(a, added, new_units, new_messages)),
{
    let b = grown_conversation(a, added, new_units, new_messages);
    let last = a.last();
    let n = last.content.len();
    let grown = b[a.len() - 1];
    let parts = appended_parts(last.content, added, n) + new_units;
    assert(grown.content.len() == n + new_units.len());
    assert forall|k: int| 0 <= k < n implies grown.content[k] == grow_block(
        last.content[k],
        added[k],
    ) by {}
    lemma_block_diffs_grow(last.content, grown.content, added, n);
    assert(grown.content.subrange(n as int, grown.content.len() as int) =~= new_units);
    let md = message_diff(last, grown);
    if parts.len() == 0 {
        assert(md == Ok::<Option<MessageModel>, DiffError>(None));
    } else {
        assert(md == Ok::<_, DiffError>(Some(MessageModel { role: last.role, content: parts })));
    }
    lemma_message_diffs_same(a, b, (a.len() - 1) as nat);
    assert(b.subrange(a.len() as int, b.len() as int) =~= new_messages);
    let ds = message_diffs(a, b, a.len());
    let head = if parts.len() == 0 {
        Seq::<MessageModel>::empty()
    } else {
        seq![MessageModel { role: last.role, content: parts }]
    };
    if parts.len() == 0 {
        assert(ds == Ok::<_, DiffError>(Seq::<MessageModel>::empty()));
    } else {
        assert(Seq::<MessageModel>::empty().push(MessageModel { role: last.role, content: parts })
            =~= head);
        assert(ds == Ok::<_, DiffError>(head));
    }
}

} // verus!
