//! The agent skill workflow: skill summaries, the prompts sent to the model,
//! and the decisions around a skill run.

use vstd::prelude::*;
use crate::text::{
    contains, decimal, join_strings, join_with, occurs_at, owned, padded_decimal, prefix_str, push_decimal,
    push_padded_decimal, str_equal, take_chars, trim, trim_str,
};
use crate::ai::service::{ai_error_message, AiError, ChatMessage};
use crate::deep_video::types::opt_view;

verus! {

/// A skill as configured.
#[derive(Debug, Clone, PartialEq)]
pub struct AgentSkillDefinition {
    pub id: String,
    pub name: String,
    pub description: String,
    pub category: String,
    pub tags: Vec<String>,
    pub system_prompt: String,
    pub suggested_output: String,
}

/// What is shown of a skill.
#[derive(Debug, Clone, PartialEq)]
pub struct AgentSkillSummary {
    pub id: String,
    pub name: String,
    pub description: String,
    pub category: String,
    pub tags: Vec<String>,
    pub suggested_output: String,
}

/// A request to run a skill.
#[derive(Debug, Clone, PartialEq)]
pub struct AgentSkillRunRequest {
    pub skill_id: String,
    pub task: String,
    pub transcript: Option<String>,
    pub reference_text: Option<String>,
    pub use_knowledge_base: bool,
}

/// A knowledge base passage; its relevance is in thousandths.
#[derive(Debug, Clone, PartialEq)]
pub struct AgentKnowledgeHit {
    pub document_name: String,
    pub snippet: String,
    pub relevance_milli: i64,
}

/// The outcome of a skill run.
#[derive(Debug, Clone, PartialEq)]
pub struct AgentSkillRunResponse {
    pub skill: AgentSkillSummary,
    pub output: String,
    pub knowledge_hits: Vec<AgentKnowledgeHit>,
}

/// The loader of the configured skills.
pub struct AgentSkillLoader;

/// The skill workflow.
pub struct AgentOrchestrator;

/// The summary of a skill: everything but its system prompt.
pub open spec fn summary_of(d: AgentSkillDefinition) -> AgentSkillSummary {
    AgentSkillSummary {
        id: d.id,
        name: d.name,
        description: d.description,
        category: d.category,
        tags: d.tags,
        suggested_output: d.suggested_output,
    }
}

impl From<AgentSkillDefinition> for AgentSkillSummary {
    fn from(value: AgentSkillDefinition) -> (r: Self) {
        AgentSkillSummary {
            id: value.id,
            name: value.name,
            description: value.description,
            category: value.category,
            tags: value.tags,
            suggested_output: value.suggested_output,
        }
    }
}

impl vstd::std_specs::convert::FromSpecImpl<AgentSkillDefinition> for AgentSkillSummary {
    open spec fn obeys_from_spec() -> bool {
        true
    }

    open spec fn from_spec(v: AgentSkillDefinition) -> Self {
        summary_of(v)
    }
}

/// The text of a search query or prompt section taken from optional material:
/// its first 200 characters, when they are not blank.
pub open spec fn preview_part(text: Option<Seq<char>>) -> Seq<Seq<char>> {
    match text {
        Some(t) => if trim(take_chars(t, 200)).len() > 0 {
            seq![take_chars(t, 200)]
        } else {
            seq![]
        },
        None => seq![],
    }
}

/// The knowledge base query of a request: the trimmed task, then the previews
/// of the transcript and the reference text, one per line.
pub open spec fn search_query_spec(r: AgentSkillRunRequest) -> Seq<char> {
    join_with(
        seq![trim(r.task@)] + preview_part(opt_view(r.transcript)) + preview_part(
            opt_view(r.reference_text),
        ),
        "\n"@,
    )
}

/// A section of the user prompt for optional material that is not blank: its
/// heading line (with the blank line before it), then the trimmed material.
pub open spec fn prompt_section(heading: Seq<char>, text: Option<Seq<char>>) -> Seq<char> {
    match text {
        Some(t) => if trim(t).len() > 0 {
            heading + trim(t) + "\n"@
        } else {
            seq![]
        },
        None => seq![],
    }
}

/// The user prompt of a request.
pub open spec fn user_prompt_spec(r: AgentSkillRunRequest) -> Seq<char> {
    "[任务目标]\n"@ + trim(r.task@) + "\n"@ + prompt_section(
        "\n[视频转写/口播素材]\n"@,
        opt_view(r.transcript),
    ) + prompt_section("\n[补充说明]\n"@, opt_view(r.reference_text)) + "\n请直接输出最终结果，避免先解释流程。"@
}

/// `needle` is found in `a + needle + b`.
proof fn lemma_contains_middle(a: Seq<char>, needle: Seq<char>, b: Seq<char>)
    ensures
        contains(a + needle + b, needle),
{
    let h = a + needle + b;
    assert(h.subrange(a.len() as int, (a.len() + needle.len()) as int) =~= needle);
    assert(occurs_at(h, needle, a.len() as int));
}

/// The user prompt opens with the trimmed task under its heading and ends
/// with the instruction to answer directly; a transcript and a reference text
/// that are not blank once trimmed reach the prompt, trimmed, each under its
/// own heading.
pub proof fn law_user_prompt_carries_request(r: AgentSkillRunRequest)
    ensures
        ({
            let p = user_prompt_spec(r);
            &&& p.take(("[任务目标]\n"@ + trim(r.task@) + "\n"@).len() as int) == "[任务目标]\n"@ + trim(r.task@) + "\n"@
            &&& p.skip(p.len() - "\n请直接输出最终结果，避免先解释流程。"@.len()) == "\n请直接输出最终结果，避免先解释流程。"@
            &&& (r.transcript is Some && trim(r.transcript->0@).len() > 0) ==> contains(
                p,
                "\n[视频转写/口播素材]\n"@ + trim(r.transcript->0@),
            )
            &&& (r.reference_text is Some && trim(r.reference_text->0@).len() > 0) ==> contains(
                p,
                "\n[补充说明]\n"@ + trim(r.reference_text->0@),
            )
        }),
{
    let head = "[任务目标]\n"@ + trim(r.task@) + "\n"@;
    let ts = prompt_section("\n[视频转写/口播素材]\n"@, opt_view(r.transcript));
    let rs = prompt_section("\n[补充说明]\n"@, opt_view(r.reference_text));
    let tail = "\n请直接输出最终结果，避免先解释流程。"@;
    let p = user_prompt_spec(r);
    assert(p =~= head + (ts + rs + tail));
    assert(p.take(head.len() as int) =~= head);
    assert(p =~= (head + ts + rs) + tail);
    assert(p.skip(p.len() - tail.len()) =~= tail);
    if r.transcript is Some && trim(r.transcript->0@).len() > 0 {
        let n = "\n[视频转写/口播素材]\n"@ + trim(r.transcript->0@);
        assert(p =~= head + n + ("\n"@ + rs + tail));
        lemma_contains_middle(head, n, "\n"@ + rs + tail);
    }
    if r.reference_text is Some && trim(r.reference_text->0@).len() > 0 {
        let n = "\n[补充说明]\n"@ + trim(r.reference_text->0@);
        assert(p =~= (head + ts) + n + ("\n"@ + tail));
        lemma_contains_middle(head + ts, n, "\n"@ + tail);
    }
}

/// A relevance in thousandths, written with three decimals.
pub open spec fn relevance_text(m: int) -> Seq<char> {
    let a = if m < 0 {
        -m
    } else {
        m
    };
    (if m < 0 {
        "-"@
    } else {
        seq![]
    }) + decimal((a / 1000) as nat) + "."@ + padded_decimal((a % 1000) as nat, 3)
}

/// The lines describing one knowledge hit.
pub open spec fn hit_text(h: AgentKnowledgeHit) -> Seq<char> {
    "- 文档: "@ + h.document_name@ + "\n  相关度: "@ + relevance_text(h.relevance_milli as int)
        + "\n  摘要: "@ + h.snippet@ + "\n"@
}

/// The texts of the hits, concatenated.
pub open spec fn hits_text(hits: Seq<AgentKnowledgeHit>) -> Seq<char>
    decreases hits.len(),
{
    if hits.len() == 0 {
        seq![]
    } else {
        hits_text(hits.drop_last()) + hit_text(hits.last())
    }
}

/// The tags of a skill joined by `、`, or `无` when it has none.
pub open spec fn tags_text(tags: Seq<String>) -> Seq<char> {
    if tags.len() == 0 {
        "无"@
    } else {
        join_with(tags.map_values(|t: String| t@), "、"@)
    }
}

/// The system prompt: the skill's description and requirements, then the
/// knowledge base passages, or a note that none matched.
pub open spec fn system_prompt_spec(skill: AgentSkillDefinition, hits: Seq<AgentKnowledgeHit>) -> Seq<char> {
    "你是抖音创作工作流 Agent，负责按指定 Skill 完成任务。\n\n[当前 Skill]\n名称: "@ + skill.name@
        + "\n说明: "@ + skill.description@ + "\n分类: "@ + skill.category@ + "\n标签: "@ + tags_text(
        skill.tags@,
    ) + "\n\n[执行要求]\n"@ + skill.system_prompt@ + "\n\n[输出要求]\n"@ + skill.suggested_output@
        + "\n"@ + if hits.len() > 0 {
        "\n[知识库参考]\n"@ + hits_text(hits)
            + "请优先基于上述知识生成结果，不足部分再做合理推断，并明确区分事实与建议。\n"@
    } else {
        "\n[知识库参考]\n当前未命中知识库，请基于任务输入直接输出。\n"@
    }
}

/// The index of the first skill with the given id, or -1.
pub open spec fn skill_index(skills: Seq<AgentSkillDefinition>, id: Seq<char>) -> int
    decreases skills.len(),
{
    if skills.len() == 0 {
        -1
    } else {
        let i = skill_index(skills.drop_last(), id);
        if i >= 0 {
            i
        } else if skills.last().id@ == id {
            skills.len() - 1
        } else {
            -1
        }
    }
}

proof fn lemma_skill_index_found(skills: Seq<AgentSkillDefinition>, id: Seq<char>, n: int)
    requires
        1 <= n <= skills.len(),
        skill_index(skills.take(n - 1), id) == -1,
        skills[n - 1].id@ == id,
    ensures
        skill_index(skills, id) == n - 1,
    decreases skills.len() - n,
{
    let t = skills.take(n);
    assert(t.drop_last() =~= skills.take(n - 1));
    if n < skills.len() {
        lemma_skill_index_grow(skills, id, n);
    } else {
        assert(t =~= skills);
    }
}

proof fn lemma_skill_index_grow(skills: Seq<AgentSkillDefinition>, id: Seq<char>, n: int)
    requires
        1 <= n <= skills.len(),
        skill_index(skills.take(n), id) >= 0,
    ensures
        skill_index(skills, id) == skill_index(skills.take(n), id),
    decreases skills.len() - n,
{
    if n < skills.len() {
        let t = skills.take(n + 1);
        assert(t.drop_last() =~= skills.take(n));
        lemma_skill_index_grow(skills, id, n + 1);
    } else {
        assert(skills.take(n) =~= skills);
    }
}

/// Appends a relevance in thousandths with three decimals.
fn push_relevance(out: &mut String, m: i64)
    ensures
        final(out)@ == old(out)@ + relevance_text(m as int),
{
    let ghost start = out@;
    let a: u64 = if m < 0 {
        out.append("-");
        (-(m as i128)) as u64
    } else {
        m as u64
    };
    push_decimal(out, a / 1000);
    out.append(".");
    push_padded_decimal(out, a % 1000, 3);
    assert(out@ =~= start + relevance_text(m as int));
}

impl AgentOrchestrator {
    /// The summaries of the loaded skills, or the loading error.
    pub fn list_skills(loaded: Result<Vec<AgentSkillDefinition>, String>) -> (r: Result<
        Vec<AgentSkillSummary>,
        String,
    >)
        ensures
            loaded is Err ==> r == Err::<Vec<AgentSkillSummary>, String>(loaded->Err_0),
            loaded is Ok ==> r is Ok && r->Ok_0@ == loaded->Ok_0@.map_values(
                |d: AgentSkillDefinition| summary_of(d),
            ),
    {
        match loaded {
            Err(e) => Err(e),
            Ok(skills) => {
                let mut out: Vec<AgentSkillSummary> = Vec::new();
                let mut rest = skills;
                let ghost all = rest@;
                let ghost mut taken: int = 0;
                while rest.len() > 0
                    invariant
                        taken + rest.len() == all.len(),
                        rest@ == all.skip(taken),
                        0 <= taken,
                        out@ == all.take(taken).map_values(
                            |d: AgentSkillDefinition| summary_of(d),
                        ),
                    decreases rest.len(),
                {
                    let d = rest.remove(0);
                    out.push(AgentSkillSummary::from(d));
                    proof {
                        assert(all.skip(taken)[0] == d);
                        taken = taken + 1;
                    }
                    assert(rest@ =~= all.skip(taken));
                    assert(out@ =~= all.take(taken).map_values(
                        |d: AgentSkillDefinition| summary_of(d),
                    ));
                }
                assert(all.take(taken) =~= all);
                Ok(out)
            },
        }
    }

    /// The knowledge base query of a request (see `search_query_spec`).
    pub fn build_search_query(request: &AgentSkillRunRequest) -> (r: String)
        ensures
            r@ == search_query_spec(*request),
    {
        let mut parts: Vec<String> = Vec::new();
        parts.push(trim_str(request.task.as_str()));
        let ghost p0 = seq![trim(request.task@)];
        assert(parts@.map_values(|s: String| s@) =~= p0);
        if let Some(transcript) = &request.transcript {
            let preview = prefix_str(transcript.as_str(), 200);
            let t = trim_str(preview.as_str());
            if t.unicode_len() > 0 {
                parts.push(preview);
            }
        }
        let ghost p1 = p0 + preview_part(opt_view(request.transcript));
        assert(parts@.map_values(|s: String| s@) =~= p1);
        if let Some(reference_text) = &request.reference_text {
            let preview = prefix_str(reference_text.as_str(), 200);
            let t = trim_str(preview.as_str());
            if t.unicode_len() > 0 {
                parts.push(preview);
            }
        }
        assert(parts@.map_values(|s: String| s@) =~= p1 + preview_part(
            opt_view(request.reference_text),
        ));
        join_strings(&parts, "\n")
    }

    /// The user prompt of a request (see `user_prompt_spec`).
    pub fn build_user_prompt(request: &AgentSkillRunRequest) -> (r: String)
        ensures
            r@ == user_prompt_spec(*request),
    {
        let mut prompt = String::new();
        prompt.append("[任务目标]\n");
        let task = trim_str(request.task.as_str());
        prompt.append(task.as_str());
        prompt.append("\n");
        let ghost start = prompt@;
        if let Some(transcript) = &request.transcript {
            let t = trim_str(transcript.as_str());
            if t.unicode_len() > 0 {
                prompt.append("\n[视频转写/口播素材]\n");
                prompt.append(t.as_str());
                prompt.append("\n");
            }
        }
        let ghost mid = start + prompt_section("\n[视频转写/口播素材]\n"@, opt_view(request.transcript));
        assert(prompt@ =~= mid);
        if let Some(reference_text) = &request.reference_text {
            let t = trim_str(reference_text.as_str());
            if t.unicode_len() > 0 {
                prompt.append("\n[补充说明]\n");
                prompt.append(t.as_str());
                prompt.append("\n");
            }
        }
        assert(prompt@ =~= mid + prompt_section("\n[补充说明]\n"@, opt_view(request.reference_text)));
        prompt.append("\n请直接输出最终结果，避免先解释流程。");
        prompt
    }

    /// The system prompt of a skill run (see `system_prompt_spec`).
    pub fn build_system_prompt(skill: &AgentSkillDefinition, knowledge_hits: &[AgentKnowledgeHit]) -> (r: String)
        ensures
            r@ == system_prompt_spec(*skill, knowledge_hits@),
    {
        let mut prompt = String::new();
        prompt.append("你是抖音创作工作流 Agent，负责按指定 Skill 完成任务。\n\n[当前 Skill]\n名称: ");
        prompt.append(skill.name.as_str());
        prompt.append("\n说明: ");
        prompt.append(skill.description.as_str());
        prompt.append("\n分类: ");
        prompt.append(skill.category.as_str());
        prompt.append("\n标签: ");
        if skill.tags.len() == 0 {
            prompt.append("无");
        } else {
            let tags = join_strings(&skill.tags, "、");
            prompt.append(tags.as_str());
        }
        prompt.append("\n\n[执行要求]\n");
        prompt.append(skill.system_prompt.as_str());
        prompt.append("\n\n[输出要求]\n");
        prompt.append(skill.suggested_output.as_str());
        prompt.append("\n");
        let ghost head = prompt@;
        if knowledge_hits.len() > 0 {
            prompt.append("\n[知识库参考]\n");
            let ghost h0 = prompt@;
            let mut i: usize = 0;
            while i < knowledge_hits.len()
                invariant
                    i <= knowledge_hits.len(),
                    prompt@ == h0 + hits_text(knowledge_hits@.take(i as int)),
                decreases knowledge_hits.len() - i,
            {
                let hit = &knowledge_hits[i];
                proof {
                    let t = knowledge_hits@.take(i + 1);
                    assert(t.drop_last() =~= knowledge_hits@.take(i as int));
                    assert(t.last() == *hit);
                }
                prompt.append("- 文档: ");
                prompt.append(hit.document_name.as_str());
                prompt.append("\n  相关度: ");
                push_relevance(&mut prompt, hit.relevance_milli);
                prompt.append("\n  摘要: ");
                prompt.append(hit.snippet.as_str());
                prompt.append("\n");
                i = i + 1;
                assert(prompt@ =~= h0 + hits_text(knowledge_hits@.take(i as int)));
            }
            assert(knowledge_hits@.take(i as int) =~= knowledge_hits@);
            prompt.append("请优先基于上述知识生成结果，不足部分再做合理推断，并明确区分事实与建议。\n");
        } else {
            prompt.append("\n[知识库参考]\n当前未命中知识库，请基于任务输入直接输出。\n");
        }
        assert(prompt@ =~= system_prompt_spec(*skill, knowledge_hits@));
        prompt
    }

    /// The message shown for a failed model call.
    pub fn map_ai_error(error: AiError) -> (r: String)
        ensures
            error is InvalidApiKey ==> r@ == "AI Key 无效或未配置"@,
            !(error is InvalidApiKey) ==> r@ == "Agent 执行失败: "@ + ai_error_message(error),
    {
        match error {
            AiError::InvalidApiKey => owned("AI Key 无效或未配置"),
            other => {
                let mut out = String::new();
                out.append("Agent 执行失败: ");
                let m = other.message();
                out.append(m.as_str());
                out
            },
        }
    }

    /// The skill a request runs: the first skill with its id (an error naming
    /// the id when there is none), provided the task is not blank.
    pub fn select_skill(skills: Vec<AgentSkillDefinition>, request: &AgentSkillRunRequest) -> (r: Result<
        AgentSkillDefinition,
        String,
    >)
        ensures
            skill_index(skills@, request.skill_id@) < 0 ==> r is Err && r->Err_0@ == "未找到 Skill: "@
                + request.skill_id@,
            skill_index(skills@, request.skill_id@) >= 0 && trim(request.task@).len() == 0 ==> r is Err
                && r->Err_0@ == "任务描述不能为空"@,
            skill_index(skills@, request.skill_id@) >= 0 && trim(request.task@).len() > 0 ==> r
                == Ok::<AgentSkillDefinition, String>(
                skills@[skill_index(skills@, request.skill_id@)],
            ),
    {
        let ghost id = request.skill_id@;
        let mut skills = skills;
        let mut i: usize = 0;
        while i < skills.len()
            invariant_except_break
                skill_index(skills@.take(i as int), id) == -1,
            invariant
                i <= skills.len(),
                id == request.skill_id@,
            ensures
                i < skills.len() ==> skill_index(skills@, id) == i,
                i >= skills.len() ==> skill_index(skills@.take(i as int), id) == -1,
            decreases skills.len() - i,
        {
            proof {
                let t = skills@.take(i + 1);
                assert(t.drop_last() =~= skills@.take(i as int));
            }
            if str_equal(skills[i].id.as_str(), request.skill_id.as_str()) {
                proof {
                    lemma_skill_index_found(skills@, id, i + 1);
                }
                break;
            }
            i = i + 1;
        }
        if i >= skills.len() {
            assert(skills@.take(i as int) =~= skills@);
            let mut msg = String::new();
            msg.append("未找到 Skill: ");
            msg.append(request.skill_id.as_str());
            return Err(msg);
        }
        let skill = skills.remove(i);
        let task = trim_str(request.task.as_str());
        if task.unicode_len() == 0 {
            Err(owned("任务描述不能为空"))
        } else {
            Ok(skill)
        }
    }

    /// The messages of a skill run: the system prompt, then the user prompt.
    pub fn skill_messages(
        skill: &AgentSkillDefinition,
        knowledge_hits: &[AgentKnowledgeHit],
        request: &AgentSkillRunRequest,
    ) -> (r: Vec<ChatMessage>)
        ensures
            r.len() == 2,
            r@[0].role@ == "system"@,
            r@[0].content@ == system_prompt_spec(*skill, knowledge_hits@),
            r@[1].role@ == "user"@,
            r@[1].content@ == user_prompt_spec(*request),
    {
        let mut messages: Vec<ChatMessage> = Vec::new();
        messages.push(
            ChatMessage {
                role: owned("system"),
                content: Self::build_system_prompt(skill, knowledge_hits),
            },
        );
        messages.push(
            ChatMessage { role: owned("user"), content: Self::build_user_prompt(request) },
        );
        messages
    }

    /// The response of a finished run.
    pub fn finish_run(
        skill: AgentSkillDefinition,
        output: String,
        knowledge_hits: Vec<AgentKnowledgeHit>,
    ) -> (r: AgentSkillRunResponse)
        ensures
            r.skill == summary_of(skill),
            r.output == output,
            r.knowledge_hits == knowledge_hits,
    {
        AgentSkillRunResponse { skill: AgentSkillSummary::from(skill), output, knowledge_hits }
    }
}


/// The next step of a skill run.
#[derive(Debug, PartialEq)]
pub enum SkillRunAction {
    /// Search the knowledge base with this query for at most `limit` passages.
    Search { query: String, limit: usize },
    /// Send these messages to the model.
    Chat { messages: Vec<ChatMessage> },
    /// The run is over.
    Finish(Result<AgentSkillRunResponse, String>),
}

/// A skill run in progress: the skill, the request and the passages found.
#[derive(Debug, Clone, PartialEq)]
pub struct SkillRun {
    pub skill: AgentSkillDefinition,
    pub request: AgentSkillRunRequest,
    pub knowledge_hits: Vec<AgentKnowledgeHit>,
}

/// The messages of a run as (role, content) texts: the system prompt, then the user prompt.
pub open spec fn run_messages(skill: AgentSkillDefinition, hits: Seq<AgentKnowledgeHit>, request: AgentSkillRunRequest) -> Seq<(Seq<char>, Seq<char>)> {
    seq![("system"@, system_prompt_spec(skill, hits)), ("user"@, user_prompt_spec(request))]
}

/// The run ends with the error `message`.
pub open spec fn fails_with(a: SkillRunAction, message: Seq<char>) -> bool {
    a matches SkillRunAction::Finish(Err(e)) && e@ == message
}

/// The chat step of a run.
pub open spec fn is_chat_for(a: SkillRunAction, run: SkillRun) -> bool {
    a matches SkillRunAction::Chat { messages } && messages@.map_values(|m: ChatMessage| (m.role@, m.content@))
        == run_messages(run.skill, run.knowledge_hits@, run.request)
}

impl AgentOrchestrator {
    /// Starts a skill run on the loaded skills: a loading error, an unknown
    /// skill or a blank task ends it at once; otherwise the knowledge base is
    /// searched first when the request asks for it and one is available,
    /// and the model is asked directly when not.
    pub fn start_skill_run(
        loaded: Result<Vec<AgentSkillDefinition>, String>,
        request: AgentSkillRunRequest,
        knowledge_base_available: bool,
    ) -> (r: (Option<SkillRun>, SkillRunAction))
        ensures
            loaded is Err ==> r.0 is None && r.1 == SkillRunAction::Finish(
                Err::<AgentSkillRunResponse, String>(loaded->Err_0),
            ),
            loaded is Ok && skill_index(loaded->Ok_0@, request.skill_id@) < 0 ==> r.0 is None
                && fails_with(r.1, "未找到 Skill: "@ + request.skill_id@),
            loaded is Ok && skill_index(loaded->Ok_0@, request.skill_id@) >= 0 && trim(request.task@).len() == 0
                ==> r.0 is None && fails_with(r.1, "任务描述不能为空"@),
            loaded is Ok && skill_index(loaded->Ok_0@, request.skill_id@) >= 0 && trim(request.task@).len() > 0
                ==> r.0 == Some(
                SkillRun {
                    skill: loaded->Ok_0@[skill_index(loaded->Ok_0@, request.skill_id@)],
                    request,
                    knowledge_hits: r.0->Some_0.knowledge_hits,
                },
            ) && r.0->Some_0.knowledge_hits@.len() == 0 && (if request.use_knowledge_base
                && knowledge_base_available {
                r.1 matches SkillRunAction::Search { query, limit } && query@ == search_query_spec(request)
                    && limit == 3
            } else {
                is_chat_for(r.1, r.0->Some_0)
            }),
    {
        let skills = match loaded {
            Err(e) => {
                return (None, SkillRunAction::Finish(Err(e)));
            },
            Ok(skills) => skills,
        };
        let skill = match Self::select_skill(skills, &request) {
            Err(e) => {
                return (None, SkillRunAction::Finish(Err(e)));
            },
            Ok(skill) => skill,
        };
        if request.use_knowledge_base && knowledge_base_available {
            let query = Self::build_search_query(&request);
            let run = SkillRun { skill, request, knowledge_hits: Vec::new() };
            (Some(run), SkillRunAction::Search { query, limit: 3 })
        } else {
            let run = SkillRun { skill, request, knowledge_hits: Vec::new() };
            let messages = Self::skill_messages(&run.skill, &run.knowledge_hits, &run.request);
            proof {
                assert(messages@.map_values(|m: ChatMessage| (m.role@, m.content@)) =~= run_messages(
                    run.skill,
                    run.knowledge_hits@,
                    run.request,
                ));
            }
            (Some(run), SkillRunAction::Chat { messages })
        }
    }

    /// Takes the outcome of the knowledge base search (`None` when it failed,
    /// which counts as no passages) and asks the model.
    pub fn on_search_results(run: SkillRun, hits: Option<Vec<AgentKnowledgeHit>>) -> (r: (SkillRun, SkillRunAction))
        ensures
            r.0.skill == run.skill,
            r.0.request == run.request,
            r.0.knowledge_hits@ == (match hits {
                Some(h) => h@,
                None => Seq::<AgentKnowledgeHit>::empty(),
            }),
            is_chat_for(r.1, r.0),
    {
        let knowledge_hits = match hits {
            Some(h) => h,
            None => Vec::new(),
        };
        let next = SkillRun { skill: run.skill, request: run.request, knowledge_hits };
        let messages = Self::skill_messages(&next.skill, &next.knowledge_hits, &next.request);
        proof {
            assert(messages@.map_values(|m: ChatMessage| (m.role@, m.content@)) =~= run_messages(
                next.skill,
                next.knowledge_hits@,
                next.request,
            ));
        }
        (next, SkillRunAction::Chat { messages })
    }

    /// Takes the model's reply and ends the run: the reply with the skill's
    /// summary and the passages used, or the failure worded for the user.
    pub fn on_model_reply(run: SkillRun, reply: Result<String, AiError>) -> (r: SkillRunAction)
        ensures
            match reply {
                Ok(output) => r == SkillRunAction::Finish(
                    Ok::<AgentSkillRunResponse, String>(
                        AgentSkillRunResponse {
                            skill: summary_of(run.skill),
                            output,
                            knowledge_hits: run.knowledge_hits,
                        },
                    ),
                ),
                Err(e) => fails_with(r, if e is InvalidApiKey {
                    "AI Key 无效或未配置"@
                } else {
                    "Agent 执行失败: "@ + ai_error_message(e)
                }),
            },
    {
        match reply {
            Ok(output) => SkillRunAction::Finish(Ok(Self::finish_run(run.skill, output, run.knowledge_hits))),
            Err(e) => SkillRunAction::Finish(Err(Self::map_ai_error(e))),
        }
    }
}
} // verus!
