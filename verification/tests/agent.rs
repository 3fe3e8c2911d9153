use douyin_creator_tools::ai::agent::{
    AgentKnowledgeHit, AgentOrchestrator, AgentSkillDefinition, AgentSkillRunRequest,
    AgentSkillSummary, SkillRunAction,
};
use douyin_creator_tools::ai::service::AiError;

fn skill(id: &str, tags: &[&str]) -> AgentSkillDefinition {
    AgentSkillDefinition {
        id: id.to_string(),
        name: format!("{id} name"),
        description: "拆解视频".to_string(),
        category: "分析".to_string(),
        tags: tags.iter().map(|t| t.to_string()).collect(),
        system_prompt: "逐段分析".to_string(),
        suggested_output: "Markdown".to_string(),
    }
}

fn request(skill_id: &str, task: &str) -> AgentSkillRunRequest {
    AgentSkillRunRequest {
        skill_id: skill_id.to_string(),
        task: task.to_string(),
        transcript: None,
        reference_text: None,
        use_knowledge_base: false,
    }
}

#[test]
fn lists_summaries_of_loaded_skills() {
    let skills = vec![skill("deep-video-breakdown", &["视频"]), skill("visual-script-consistency", &[])];
    let summaries = AgentOrchestrator::list_skills(Ok(skills)).unwrap();
    assert_eq!(summaries.len(), 2);
    assert_eq!(summaries[0].id, "deep-video-breakdown");
    assert_eq!(summaries[0].tags, vec!["视频".to_string()]);
    assert_eq!(summaries[1].suggested_output, "Markdown");
    assert_eq!(
        AgentOrchestrator::list_skills(Err("bad".to_string())),
        Err("bad".to_string())
    );
}

#[test]
fn summary_drops_only_the_system_prompt() {
    let summary = AgentSkillSummary::from(skill("a", &["x", "y"]));
    assert_eq!(summary.id, "a");
    assert_eq!(summary.name, "a name");
    assert_eq!(summary.description, "拆解视频");
    assert_eq!(summary.category, "分析");
    assert_eq!(summary.tags, vec!["x".to_string(), "y".to_string()]);
}

#[test]
fn selects_first_skill_with_the_id() {
    let mut second = skill("b", &[]);
    second.name = "first b".to_string();
    let mut third = skill("b", &[]);
    third.name = "second b".to_string();
    let skills = vec![skill("a", &[]), second, third];
    let chosen = AgentOrchestrator::select_skill(skills.clone(), &request("b", "做点什么")).unwrap();
    assert_eq!(chosen.name, "first b");
    assert_eq!(
        AgentOrchestrator::select_skill(skills.clone(), &request("zzz", "做点什么")),
        Err("未找到 Skill: zzz".to_string())
    );
    assert_eq!(
        AgentOrchestrator::select_skill(skills, &request("a", "  \n ")),
        Err("任务描述不能为空".to_string())
    );
}

#[test]
fn search_query_joins_task_and_previews() {
    let mut r = request("a", "  写脚本  ");
    r.transcript = Some("x".repeat(250));
    r.reference_text = Some("   ".to_string());
    let query = AgentOrchestrator::build_search_query(&r);
    assert_eq!(query, format!("写脚本\n{}", "x".repeat(200)));
    assert_eq!(AgentOrchestrator::build_search_query(&request("a", "t")), "t");
}

#[test]
fn user_prompt_has_sections_for_non_blank_material() {
    let mut r = request("a", " 任务 ");
    r.transcript = Some("  口播  ".to_string());
    r.reference_text = Some("  ".to_string());
    assert_eq!(
        AgentOrchestrator::build_user_prompt(&r),
        "[任务目标]\n任务\n\n[视频转写/口播素材]\n口播\n\n请直接输出最终结果，避免先解释流程。"
    );
}

#[test]
fn system_prompt_lists_tags_and_knowledge_hits() {
    let hits = vec![AgentKnowledgeHit {
        document_name: "手册".to_string(),
        snippet: "要点".to_string(),
        relevance_milli: 875,
    }];
    let prompt = AgentOrchestrator::build_system_prompt(&skill("a", &["x", "y"]), &hits);
    assert!(prompt.contains("标签: x、y\n"));
    assert!(prompt.contains("- 文档: 手册\n  相关度: 0.875\n  摘要: 要点\n"));
    assert!(prompt.ends_with("请优先基于上述知识生成结果，不足部分再做合理推断，并明确区分事实与建议。\n"));

    let empty = AgentOrchestrator::build_system_prompt(&skill("a", &[]), &[]);
    assert!(empty.contains("标签: 无\n"));
    assert!(empty.ends_with("\n[知识库参考]\n当前未命中知识库，请基于任务输入直接输出。\n"));
}

#[test]
fn skill_messages_are_system_then_user() {
    let r = request("a", "t");
    let messages = AgentOrchestrator::skill_messages(&skill("a", &[]), &[], &r);
    assert_eq!(messages.len(), 2);
    assert_eq!(messages[0].role, "system");
    assert_eq!(messages[1].role, "user");
    assert_eq!(messages[1].content, AgentOrchestrator::build_user_prompt(&r));
}

#[test]
fn maps_model_errors_to_messages() {
    assert_eq!(AgentOrchestrator::map_ai_error(AiError::InvalidApiKey), "AI Key 无效或未配置");
    assert_eq!(
        AgentOrchestrator::map_ai_error(AiError::ParseError("空响应".to_string())),
        "Agent 执行失败: 响应解析失败: 空响应"
    );
}

#[test]
fn finished_run_carries_summary_output_and_hits() {
    let response = AgentOrchestrator::finish_run(skill("a", &[]), "done".to_string(), Vec::new());
    assert_eq!(response.skill.id, "a");
    assert_eq!(response.output, "done");
    assert!(response.knowledge_hits.is_empty());
}

#[test]
fn skill_run_steps_through_search_and_chat() {
    let mut r = request("a", "写标题");
    r.use_knowledge_base = true;
    let (run, action) = AgentOrchestrator::start_skill_run(Ok(vec![skill("a", &[])]), r.clone(), true);
    match action {
        SkillRunAction::Search { query, limit } => {
            assert_eq!(query, "写标题");
            assert_eq!(limit, 3);
        }
        other => panic!("expected a search, got {other:?}"),
    }
    let hits = vec![AgentKnowledgeHit { document_name: "d".to_string(), snippet: "s".to_string(), relevance_milli: 500 }];
    let (run, action) = AgentOrchestrator::on_search_results(run.unwrap(), Some(hits));
    match action {
        SkillRunAction::Chat { messages } => {
            assert_eq!(messages.len(), 2);
            assert!(messages[0].content.contains("相关度: 0.500"));
        }
        other => panic!("expected a chat, got {other:?}"),
    }
    match AgentOrchestrator::on_model_reply(run, Ok("结果".to_string())) {
        SkillRunAction::Finish(Ok(response)) => {
            assert_eq!(response.output, "结果");
            assert_eq!(response.knowledge_hits.len(), 1);
        }
        other => panic!("expected a finished run, got {other:?}"),
    }
}

#[test]
fn skill_run_without_knowledge_base_chats_at_once() {
    let mut r = request("a", "写标题");
    r.use_knowledge_base = true;
    let (run, action) = AgentOrchestrator::start_skill_run(Ok(vec![skill("a", &[])]), r, false);
    assert!(run.is_some());
    assert!(matches!(action, SkillRunAction::Chat { .. }));
    let (none, failed) = AgentOrchestrator::start_skill_run(Err("解析 Agent Skills 失败: x".to_string()), request("a", "t"), true);
    assert!(none.is_none());
    assert_eq!(failed, SkillRunAction::Finish(Err("解析 Agent Skills 失败: x".to_string())));
    let (_, missing) = AgentOrchestrator::start_skill_run(Ok(Vec::new()), request("zz", "t"), false);
    assert_eq!(missing, SkillRunAction::Finish(Err("未找到 Skill: zz".to_string())));
    let reply = AgentOrchestrator::on_model_reply(
        AgentOrchestrator::start_skill_run(Ok(vec![skill("a", &[])]), request("a", "t"), false).0.unwrap(),
        Err(AiError::InvalidApiKey),
    );
    assert_eq!(reply, SkillRunAction::Finish(Err("AI Key 无效或未配置".to_string())));
}
