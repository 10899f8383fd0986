use subagents::errors::{ManagerError, ReplyError};
use subagents::message::Message;
use subagents::recipe::Recipe;
use subagents::subagent::{
    ModelResponse, ProviderOutcome, ReplyStep, SubAgent, SubAgentConfig, SubAgentStatus,
    ToolCallReq, ToolOutcome,
};
use subagents::subagent_manager::{SpawnSubAgentArgs, SubAgentManager};
use subagents::Role;

fn plain_recipe(title: &str) -> Recipe {
    Recipe { title: title.to_string(), instructions: None, extensions: None }
}

fn success(text: &str, tool_calls: Vec<ToolCallReq>) -> ProviderOutcome {
    ProviderOutcome::Success(ModelResponse {
        message: Message::assistant_text(text.to_string()),
        tool_calls,
    })
}

fn status_of(mgr: &SubAgentManager, id: &String) -> SubAgentStatus {
    mgr.get_subagent(id).expect("registered").get_status()
}

#[test]
fn single_turn_budget_scenario() {
    let mut mgr = SubAgentManager::new();
    let args = SpawnSubAgentArgs::new(
        "research_assistant".to_string(),
        "find X".to_string(),
    )
    .with_max_turns(1);
    let id = mgr
        .spawn_interactive_subagent(args, plain_recipe("research_assistant"), &Vec::new())
        .expect("budget of one allows the initial message");

    let progress = mgr.get_subagent(&id).unwrap().get_progress();
    assert_eq!(progress.turn, 1);
    assert_eq!(progress.max_turns, Some(1));

    let step = mgr.resolve_provider_for(&id, success("here is X", Vec::new()));
    assert_eq!(
        step,
        Ok(ReplyStep::Finished(Message::assistant_text("here is X".to_string())))
    );
    assert_eq!(status_of(&mgr, &id), SubAgentStatus::Ready);

    let second = mgr.reply_to_subagent(&id, "find more".to_string());
    assert_eq!(second, Err(ManagerError::LimitExceeded(1)));
    assert_eq!(
        second.unwrap_err().text(),
        "Maximum turns (1) exceeded".to_string()
    );
    assert_eq!(
        status_of(&mgr, &id),
        SubAgentStatus::Completed("Maximum turns exceeded".to_string())
    );

    let conversation = mgr.get_subagent(&id).unwrap().get_conversation();
    assert_eq!(conversation.len(), 2);
    assert_eq!(conversation[0].text, "find X".to_string());
}

#[test]
fn turn_counts_only_accepted_replies() {
    let mut mgr = SubAgentManager::new();
    let args =
        SpawnSubAgentArgs::new("w".to_string(), "one".to_string()).with_max_turns(2);
    let id = mgr
        .spawn_interactive_subagent(args, plain_recipe("w"), &Vec::new())
        .unwrap();
    mgr.resolve_provider_for(&id, success("r1", Vec::new())).unwrap();
    assert_eq!(mgr.get_subagent(&id).unwrap().get_progress().turn, 1);

    mgr.reply_to_subagent(&id, "two".to_string()).unwrap();
    mgr.resolve_provider_for(&id, success("r2", Vec::new())).unwrap();
    assert_eq!(mgr.get_subagent(&id).unwrap().get_progress().turn, 2);

    let refused = mgr.reply_to_subagent(&id, "three".to_string());
    assert_eq!(refused, Err(ManagerError::LimitExceeded(2)));
    assert_eq!(mgr.get_subagent(&id).unwrap().get_progress().turn, 2);
}

#[test]
fn context_length_exceeded_is_absorbed() {
    let mut mgr = SubAgentManager::new();
    let id = mgr
        .spawn_interactive_subagent(
            SpawnSubAgentArgs::new("w".to_string(), "long task".to_string()),
            plain_recipe("w"),
            &Vec::new(),
        )
        .unwrap();
    let step = mgr
        .resolve_provider_for(
            &id,
            ProviderOutcome::ContextLengthExceeded("window blown".to_string()),
        )
        .expect("the provider error is absorbed, never surfaced");
    match step {
        ReplyStep::Finished(m) => {
            assert_eq!(m.role, Role::Assistant);
            assert!(!m.text.is_empty());
            assert_eq!(
                m.text,
                "The context length of the model has been exceeded. Please start a new session and try again."
                    .to_string()
            );
            assert!(m.text.contains("start a new session"));
        }
        other => panic!("expected a final message, got {:?}", other),
    }
    assert_eq!(
        status_of(&mgr, &id),
        SubAgentStatus::Completed("Context length exceeded".to_string())
    );
}

#[test]
fn rate_limit_is_absorbed() {
    let mut mgr = SubAgentManager::new();
    let id = mgr
        .spawn_interactive_subagent(
            SpawnSubAgentArgs::new("w".to_string(), "go".to_string()),
            plain_recipe("w"),
            &Vec::new(),
        )
        .unwrap();
    let step = mgr
        .resolve_provider_for(&id, ProviderOutcome::RateLimitExceeded("429".to_string()))
        .unwrap();
    assert_eq!(
        step,
        ReplyStep::Finished(Message::assistant_text(
            "Rate limit exceeded. Please try again later.".to_string()
        ))
    );
    assert_eq!(
        status_of(&mgr, &id),
        SubAgentStatus::Completed("Rate limit exceeded".to_string())
    );
}

#[test]
fn other_provider_error_is_absorbed_as_failure() {
    let mut mgr = SubAgentManager::new();
    let id = mgr
        .spawn_interactive_subagent(
            SpawnSubAgentArgs::new("w".to_string(), "go".to_string()),
            plain_recipe("w"),
            &Vec::new(),
        )
        .unwrap();
    let step = mgr
        .resolve_provider_for(&id, ProviderOutcome::Other("connection reset".to_string()))
        .unwrap();
    assert_eq!(
        step,
        ReplyStep::Finished(Message::assistant_text(
            "Ran into this error: connection reset.\n\nPlease retry if you think this is a transient or recoverable error."
                .to_string()
        ))
    );
    assert_eq!(
        status_of(&mgr, &id),
        SubAgentStatus::Failed("Error: connection reset".to_string())
    );
}

#[test]
fn tool_round_interleaves_records_in_emission_order() {
    let mut mgr = SubAgentManager::new();
    let id = mgr
        .spawn_interactive_subagent(
            SpawnSubAgentArgs::new("w".to_string(), "calculate".to_string()),
            plain_recipe("w"),
            &Vec::new(),
        )
        .unwrap();

    let calls = vec![
        ToolCallReq {
            id: "call-1".to_string(),
            name: "adder".to_string(),
            arguments: "{\"a\":1}".to_string(),
        },
        ToolCallReq {
            id: "call-2".to_string(),
            name: "checker".to_string(),
            arguments: "{}".to_string(),
        },
    ];
    let step = mgr
        .resolve_provider_for(&id, success("using tools", calls.clone()))
        .unwrap();
    assert_eq!(step, ReplyStep::ToolsPending(calls));
    assert_eq!(status_of(&mgr, &id), SubAgentStatus::Processing);

    mgr.resolve_tool_for(&id, ToolOutcome::Success("2".to_string())).unwrap();
    mgr.resolve_tool_for(&id, ToolOutcome::Failure("checker offline".to_string()))
        .unwrap();
    let done = mgr.resolve_provider_for(&id, success("all done", Vec::new())).unwrap();
    assert_eq!(
        done,
        ReplyStep::Finished(Message::assistant_text("all done".to_string()))
    );

    let conversation = mgr.get_subagent(&id).unwrap().get_conversation();
    let texts: Vec<String> = conversation.iter().map(|m| m.text.clone()).collect();
    assert_eq!(
        texts,
        vec![
            "calculate".to_string(),
            "Tool response: 2".to_string(),
            "Tool error: checker offline".to_string(),
            "all done".to_string(),
        ]
    );
    assert_eq!(conversation[0].role, Role::User);
    assert_eq!(conversation[1].role, Role::User);
    assert_eq!(conversation[2].role, Role::User);
    assert_eq!(conversation[3].role, Role::Assistant);
    assert_eq!(status_of(&mgr, &id), SubAgentStatus::Ready);
}

#[test]
fn conversation_round_trip_over_three_exchanges() {
    let mut mgr = SubAgentManager::new();
    let id = mgr
        .spawn_interactive_subagent(
            SpawnSubAgentArgs::new("w".to_string(), "q1".to_string()),
            plain_recipe("w"),
            &Vec::new(),
        )
        .unwrap();
    mgr.resolve_provider_for(&id, success("a1", Vec::new())).unwrap();
    for (q, a) in [("q2", "a2"), ("q3", "a3")] {
        mgr.reply_to_subagent(&id, q.to_string()).unwrap();
        mgr.resolve_provider_for(&id, success(a, Vec::new())).unwrap();
    }

    let conversation = mgr.get_subagent(&id).unwrap().get_conversation();
    let expected = [
        (Role::User, "q1"),
        (Role::Assistant, "a1"),
        (Role::User, "q2"),
        (Role::Assistant, "a2"),
        (Role::User, "q3"),
        (Role::Assistant, "a3"),
    ];
    assert_eq!(conversation.len(), expected.len());
    for (entry, (role, text)) in conversation.iter().zip(expected.iter()) {
        assert_eq!(entry.role, *role);
        assert_eq!(entry.text, text.to_string());
    }
}

#[test]
fn terminated_instance_accepts_no_message() {
    let recipe = plain_recipe("standalone");
    let config = SubAgentConfig::new(recipe);
    let mut agent = SubAgent::new(config, &Vec::new());
    agent.terminate();
    assert_eq!(agent.get_status(), SubAgentStatus::Terminated);
    assert!(agent.is_completed());
    let refused = agent.start_reply("anything".to_string());
    assert_eq!(refused, Err(ReplyError::NotAccepting));
    assert!(agent.get_conversation().is_empty());
}

#[test]
fn extensions_are_partitioned_against_enabled_set() {
    let recipe = Recipe {
        title: "tooled".to_string(),
        instructions: Some("Answer briefly.".to_string()),
        extensions: Some(vec![
            "calendar".to_string(),
            "files".to_string(),
            "mail".to_string(),
        ]),
    };
    let enabled = vec!["files".to_string(), "shell".to_string()];
    let agent = SubAgent::new(SubAgentConfig::new(recipe), &enabled);
    assert_eq!(
        agent.get_missing_extensions(),
        vec!["calendar".to_string(), "mail".to_string()]
    );
    assert_eq!(
        agent.system_prompt(),
        "You are a helpful subagent that was spawned by goose. You converse with goose and can use the following tools: files\n\nAnswer briefly."
            .to_string()
    );
}

#[test]
fn system_prompt_joins_extensions_with_commas() {
    let recipe = Recipe {
        title: "t".to_string(),
        instructions: None,
        extensions: Some(vec!["a".to_string(), "b".to_string(), "c".to_string()]),
    };
    let enabled = vec!["a".to_string(), "b".to_string(), "c".to_string()];
    let agent = SubAgent::new(SubAgentConfig::new(recipe), &enabled);
    assert_eq!(
        agent.system_prompt(),
        "You are a helpful subagent that was spawned by goose. You converse with goose and can use the following tools: a, b, c\n\n"
            .to_string()
    );
}

#[test]
fn progress_message_follows_status() {
    let config = SubAgentConfig::new(plain_recipe("p")).with_max_turns(9);
    let mut agent = SubAgent::new(config, &Vec::new());
    assert_eq!(
        agent.get_progress().message,
        "Ready to process messages".to_string()
    );
    agent.start_reply("hi".to_string()).unwrap();
    let p = agent.get_progress();
    assert_eq!(p.message, "Processing request...".to_string());
    assert_eq!(p.turn, 1);
    assert_eq!(p.max_turns, Some(9));
    agent.terminate();
    assert_eq!(agent.get_progress().message, "Subagent terminated".to_string());
}

#[test]
fn config_builders_set_budget_and_timeout() {
    let config = SubAgentConfig::new(plain_recipe("c"))
        .with_max_turns(5)
        .with_timeout(30);
    assert_eq!(config.max_turns, Some(5));
    assert_eq!(config.timeout_seconds, Some(30));
    assert_eq!(config.id.len(), 36);
    assert_eq!(config.recipe.title, "c".to_string());
}

#[test]
fn terminal_entry_still_registered_takes_no_new_round() {
    let mut mgr = SubAgentManager::new();
    let id = mgr
        .spawn_interactive_subagent(
            SpawnSubAgentArgs::new("w".to_string(), "go".to_string()),
            plain_recipe("w"),
            &Vec::new(),
        )
        .unwrap();
    mgr.resolve_provider_for(&id, ProviderOutcome::RateLimitExceeded("429".to_string()))
        .unwrap();
    assert!(mgr.has_subagent(&id));
    let refused = mgr.reply_to_subagent(&id, "more".to_string());
    assert_eq!(refused, Err(ManagerError::NotAccepting));
    let conversation = mgr.get_subagent(&id).unwrap().get_conversation();
    assert_eq!(conversation.len(), 1);
}

#[test]
fn provider_outcome_without_open_round_is_rejected() {
    let mut mgr = SubAgentManager::new();
    let id = mgr
        .spawn_interactive_subagent(
            SpawnSubAgentArgs::new("w".to_string(), "go".to_string()),
            plain_recipe("w"),
            &Vec::new(),
        )
        .unwrap();
    mgr.resolve_provider_for(&id, success("done", Vec::new())).unwrap();
    let stray = mgr.resolve_provider_for(&id, success("late", Vec::new()));
    assert_eq!(stray, Err(ManagerError::NotAccepting));
    let stray_tool = mgr.resolve_tool_for(&id, ToolOutcome::Success("x".to_string()));
    assert_eq!(stray_tool, Err(ManagerError::NotAccepting));
}

#[test]
fn fresh_ids_differ_between_spawns() {
    let a = SubAgentConfig::new(plain_recipe("x"));
    let b = SubAgentConfig::new(plain_recipe("x"));
    assert_ne!(a.id, b.id);
}
