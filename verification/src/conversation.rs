//! The agent conversation: the earlier turns handed to the planner with a
//! follow-up request, and the binding of an agent's edit transaction to the
//! tool call that carries it.
use vstd::prelude::*;
use crate::error::{ApiError, STATUS_BAD_REQUEST, STATUS_FORBIDDEN};
use crate::text::{chars_of, copy_range, push_str, str_eq, string_of};

verus! {

/// A stored message of an agent session.
#[derive(Debug)]
pub struct AgentMessage {
    pub role: String,
    pub text: String,
    pub status: String,
}

/// A completed message from the user or the agent.
pub open spec fn usable_turn(m: AgentMessage) -> bool {
    m.status@ == "completed"@ && (m.role@ == "user"@ || m.role@ == "agent"@)
}

/// The last `k` usable turns among `ms`, oldest first.
pub open spec fn recent_turns(ms: Seq<AgentMessage>, k: nat) -> Seq<AgentMessage>
    decreases ms.len(),
{
    if ms.len() == 0 || k == 0 {
        Seq::empty()
    } else if usable_turn(ms.last()) {
        recent_turns(ms.drop_last(), (k - 1) as nat).push(ms.last())
    } else {
        recent_turns(ms.drop_last(), k)
    }
}

/// At most the first `n` characters.
pub open spec fn clip_text(t: Seq<char>, n: nat) -> Seq<char> {
    if t.len() <= n {
        t
    } else {
        t.take(n as int)
    }
}

/// The name for what `serde_json::to_string` writes for an array of JSON
/// objects whose members are all strings: one object per row, each row a
/// list of member names and values.
pub uninterp spec fn string_rows_json(rows: Seq<Seq<(Seq<char>, Seq<char>)>>) -> Seq<char>;

pub open spec fn row_view(row: Vec<(String, String)>) -> Seq<(Seq<char>, Seq<char>)> {
    row@.map_values(|m: (String, String)| (m.0@, m.1@))
}

/// `serde_json::to_string` of an array of objects with string members, one
/// object per row; the caller gives each row distinct member names.
#[verifier::external_body]
fn encode_string_rows(rows: &Vec<Vec<(String, String)>>) -> (r: String)
    ensures
        r@ == string_rows_json(rows@.map_values(|row: Vec<(String, String)>| row_view(row))),
{
    let items: Vec<serde_json::Value> = rows.iter().map(|row| {
        serde_json::Value::Object(row.iter().map(|(k, v)| (k.clone(), serde_json::Value::String(v.clone()))).collect())
    }).collect();
    serde_json::Value::Array(items).to_string()
}

/// A turn as the members of its JSON object: `role`, then `text` cut to
/// 4000 characters.
pub open spec fn turn_members(m: AgentMessage) -> Seq<(Seq<char>, Seq<char>)> {
    seq![("role"@, m.role@), ("text"@, clip_text(m.text@, 4000))]
}

/// The planner's instruction for a follow-up request: the request alone
/// when the session has no usable earlier turn, else the last twelve usable
/// turns as JSON context followed by the request.
pub open spec fn instruction_spec(ms: Seq<AgentMessage>, current: Seq<char>) -> Seq<char> {
    let turns = recent_turns(ms, 12);
    if turns.len() == 0 {
        current
    } else {
        "Use this prior OpenChatCut conversation only to resolve follow-up references; it is context, not project state: "@
            + string_rows_json(turns.map_values(|m: AgentMessage| turn_members(m))) + "\nCurrent request: "@ + current
    }
}

fn is_usable_turn(m: &AgentMessage) -> (r: bool)
    ensures
        r == usable_turn(*m),
{
    str_eq(m.status.as_str(), "completed") && (str_eq(m.role.as_str(), "user") || str_eq(m.role.as_str(), "agent"))
}

/// The planner's instruction for a follow-up request (see
/// `instruction_spec`).
pub fn agent_instruction_with_history(messages: &Vec<AgentMessage>, current_instruction: &str) -> (r: String)
    ensures
        r@ == instruction_spec(messages@, current_instruction@),
{
    let ghost ms = messages@;
    let mut picked: Vec<usize> = Vec::new();
    let mut i: usize = messages.len();
    assert(ms.subrange(0, i as int) =~= ms);
    assert(recent_turns(ms, 12) + Seq::new(0, |q: int| ms[picked@[picked.len() - 1 - q] as int]) =~= recent_turns(ms, 12));
    while i > 0 && picked.len() < 12
        invariant
            i <= messages.len(),
            picked.len() <= 12,
            ms == messages@,
            forall|q: int| 0 <= q < picked.len() ==> #[trigger] picked@[q] < messages.len(),
            recent_turns(ms, 12) == recent_turns(ms.subrange(0, i as int), (12 - picked.len()) as nat) + Seq::new(
                picked.len() as nat,
                |q: int| ms[picked@[picked.len() - 1 - q] as int],
            ),
        decreases i,
    {
        let ghost pre = ms.subrange(0, i as int);
        assert(pre.drop_last() =~= ms.subrange(0, i - 1));
        assert(pre.last() == ms[i - 1]);
        let ghost before = picked@;
        if is_usable_turn(&messages[i - 1]) {
            picked.push(i - 1);
            assert(Seq::new(picked.len() as nat, |q: int| ms[picked@[picked.len() - 1 - q] as int]) =~= seq![ms[i - 1]]
                + Seq::new(before.len() as nat, |q: int| ms[before[before.len() - 1 - q] as int]));
        }
        i -= 1;
    }
    assert(recent_turns(ms.subrange(0, i as int), (12 - picked.len()) as nat) =~= Seq::<AgentMessage>::empty()) by {
        if i > 0 {
            assert(picked.len() == 12);
        }
    }
    let ghost turns = recent_turns(ms, 12);
    assert(turns =~= Seq::new(picked.len() as nat, |q: int| ms[picked@[picked.len() - 1 - q] as int]));
    if picked.len() == 0 {
        return crate::text::copy_string(current_instruction);
    }
    let mut pairs: Vec<Vec<(String, String)>> = Vec::new();
    let mut k: usize = picked.len();
    while k > 0
        invariant
            k <= picked.len(),
            ms == messages@,
            turns == Seq::new(picked.len() as nat, |q: int| ms[picked@[picked.len() - 1 - q] as int]),
            forall|q: int| 0 <= q < picked.len() ==> #[trigger] picked@[q] < messages.len(),
            pairs@.map_values(|row: Vec<(String, String)>| row_view(row)) =~= turns.subrange(0, (picked.len() - k) as int).map_values(
                |m: AgentMessage| turn_members(m),
            ),
        decreases k,
    {
        let m = &messages[picked[k - 1]];
        let cs = chars_of(m.text.as_str());
        let text = if cs.len() <= 4000 {
            string_of(cs.as_slice())
        } else {
            string_of(copy_range(cs.as_slice(), 0, 4000).as_slice())
        };
        assert(turns[(picked.len() - k) as int] == *m);
        assert(text@ == clip_text(m.text@, 4000));
        let ghost before = pairs@.map_values(|row: Vec<(String, String)>| row_view(row));
        let row = vec![
            (crate::text::copy_string("role"), crate::text::copy_string(m.role.as_str())),
            (crate::text::copy_string("text"), text),
        ];
        assert(row_view(row) =~= turn_members(*m));
        pairs.push(row);
        assert(turns.subrange(0, (picked.len() - k + 1) as int) =~= turns.subrange(0, (picked.len() - k) as int).push(*m));
        assert(pairs@.map_values(|row: Vec<(String, String)>| row_view(row)) =~= before.push(turn_members(*m)));
        k -= 1;
    }
    assert(turns.subrange(0, picked.len() as int) =~= turns);
    let json = encode_string_rows(&pairs);
    let mut v = chars_of(
        "Use this prior OpenChatCut conversation only to resolve follow-up references; it is context, not project state: ",
    );
    push_str(&mut v, json.as_str());
    push_str(&mut v, "\nCurrent request: ");
    push_str(&mut v, current_instruction);
    string_of(v.as_slice())
}

/// Who performs an edit transaction.
#[derive(Debug, Clone, Copy, PartialEq, Eq, Structural)]
pub enum ActorKind {
    User,
    Agent,
    System,
}

/// What a tool call's edit transaction says about its origin and target.
#[derive(Debug)]
pub struct TransactionBinding {
    pub project_id: String,
    pub base_revision: u64,
    pub idempotency_key: String,
    pub actor_kind: ActorKind,
    pub actor_id: Option<String>,
}

/// The transaction comes from the agent `codex`.
pub open spec fn codex_actor(t: TransactionBinding) -> bool {
    &&& t.actor_kind == ActorKind::Agent
    &&& t.actor_id matches Some(id) && id@ == "codex"@
}

/// Tool transactions must come from the agent `codex`.
pub fn enforce_codex_actor(t: &TransactionBinding) -> (r: Result<(), ApiError>)
    ensures
        match r {
            Ok(()) => codex_actor(*t),
            Err(e) => !codex_actor(*t) && e.status == STATUS_FORBIDDEN && e.code@ == "agent_actor_spoofing"@
                && e.message@ == "tool transactions must use actor.kind=agent and actor.id=codex"@,
        },
{
    let ok = t.actor_kind == ActorKind::Agent && match &t.actor_id {
        Some(id) => str_eq(id.as_str(), "codex"),
        None => false,
    };
    if !ok {
        return Err(
            ApiError::forbidden("agent_actor_spoofing", "tool transactions must use actor.kind=agent and actor.id=codex"),
        );
    }
    Ok(())
}

/// A tool call's transaction must come from `codex` and name the call's
/// project, expected revision and idempotency key.
pub fn enforce_agent_transaction_binding(
    t: &TransactionBinding,
    project_id: &str,
    expected_revision: u64,
    idempotency_key: &str,
) -> (r: Result<(), ApiError>)
    ensures
        match r {
            Ok(()) => codex_actor(*t) && t.project_id@ == project_id@ && t.base_revision == expected_revision
                && t.idempotency_key@ == idempotency_key@,
            Err(e) => if !codex_actor(*t) {
                e.status == STATUS_FORBIDDEN && e.code@ == "agent_actor_spoofing"@
            } else if t.project_id@ != project_id@ {
                e.status == STATUS_BAD_REQUEST && e.code@ == "project_id_mismatch"@ && e.message@
                    == "transaction.projectId does not match arguments.projectId"@
            } else if t.base_revision != expected_revision {
                e.status == STATUS_BAD_REQUEST && e.code@ == "expected_revision_mismatch"@ && e.message@
                    == "transaction.baseRevision does not match arguments.expectedRevision"@
            } else {
                t.idempotency_key@ != idempotency_key@ && e.status == STATUS_BAD_REQUEST && e.code@
                    == "idempotency_key_mismatch"@ && e.message@
                    == "transaction.idempotencyKey does not match the top-level idempotencyKey"@
            },
        },
{
    match enforce_codex_actor(t) {
        Err(e) => return Err(e),
        Ok(()) => {},
    }
    if !str_eq(t.project_id.as_str(), project_id) {
        return Err(
            ApiError::bad_request("project_id_mismatch", "transaction.projectId does not match arguments.projectId"),
        );
    }
    if t.base_revision != expected_revision {
        return Err(
            ApiError::bad_request(
                "expected_revision_mismatch",
                "transaction.baseRevision does not match arguments.expectedRevision",
            ),
        );
    }
    if !str_eq(t.idempotency_key.as_str(), idempotency_key) {
        return Err(
            ApiError::bad_request(
                "idempotency_key_mismatch",
                "transaction.idempotencyKey does not match the top-level idempotencyKey",
            ),
        );
    }
    Ok(())
}

/// What kind of project operation an agent transaction holds, as far as the
/// privilege rule cares.
#[derive(Debug, Clone, Copy, PartialEq, Eq, Structural)]
pub enum OperationKind {
    ReplaceDocument,
    ReplaceSceneGraph,
    AddAsset,
    UpsertAsset,
    /// Any other operation.
    Other,
}

pub open spec fn privileged(k: OperationKind) -> bool {
    k != OperationKind::Other
}

/// Agent tools may not replace the document or the scene graph, nor add or
/// overwrite asset records: a transaction holding such an operation is 403
/// `privileged_operation_forbidden`.
pub fn reject_privileged_agent_operations(operations: &Vec<OperationKind>) -> (r: Result<(), ApiError>)
    ensures
        r is Ok <==> forall|i: int| 0 <= i < operations.len() ==> !privileged(#[trigger] operations@[i]),
        r matches Err(e) ==> e.status == STATUS_FORBIDDEN && e.code@ == "privileged_operation_forbidden"@
            && e.message@ == "agent tools cannot replace project structure or forge managed asset records"@,
{
    let mut i: usize = 0;
    while i < operations.len()
        invariant
            i <= operations.len(),
            forall|j: int| 0 <= j < i ==> !privileged(#[trigger] operations@[j]),
        decreases operations.len() - i,
    {
        if operations[i] != OperationKind::Other {
            return Err(
                ApiError::forbidden(
                    "privileged_operation_forbidden",
                    "agent tools cannot replace project structure or forge managed asset records",
                ),
            );
        }
        i += 1;
    }
    Ok(())
}

} // verus!

