use subagents::errors::ManagerError;
use subagents::message::Message;
use subagents::recipe::Recipe;
use subagents::subagent::{ModelResponse, ProviderOutcome, ReplyStep, SubAgentStatus};
use subagents::subagent_manager::{SpawnSubAgentArgs, SubAgentManager};
use subagents::Role;

fn plain_recipe(title: &str) -> Recipe {
    Recipe { title: title.to_string(), instructions: None, extensions: None }
}

fn spawn(mgr: &mut SubAgentManager, recipe_name: &str, message: &str) -> String {
    let args = SpawnSubAgentArgs::new(recipe_name.to_string(), message.to_string());
    mgr.spawn_interactive_subagent(args, plain_recipe(recipe_name), &Vec::new())
        .expect("spawn should succeed")
}

fn finish_round(mgr: &mut SubAgentManager, id: &String, text: &str) -> Message {
    let resp = ModelResponse {
        message: Message::assistant_text(text.to_string()),
        tool_calls: Vec::new(),
    };
    match mgr.resolve_provider_for(id, ProviderOutcome::Success(resp)) {
        Ok(ReplyStep::Finished(m)) => m,
        other => panic!("round should finish, got {:?}", other),
    }
}

#[test]
fn spawn_registers_each_worker() {
    let mut mgr = SubAgentManager::new();
    let a = spawn(&mut mgr, "researcher", "find X");
    let b = spawn(&mut mgr, "planner", "plan Y");
    let c = spawn(&mut mgr, "summarizer", "summarize Z");

    assert_eq!(mgr.get_active_count(), 3);
    let ids = mgr.list_subagents();
    assert_eq!(ids.len(), 3);
    assert!(ids.contains(&a));
    assert!(ids.contains(&b));
    assert!(ids.contains(&c));
    assert_ne!(a, b);
    assert_ne!(b, c);
    assert_ne!(a, c);

    let statuses = mgr.get_subagent_status();
    assert_eq!(statuses.len(), 3);
    for id in [&a, &b, &c] {
        assert!(statuses.iter().any(|(i, _)| i == id));
        assert!(mgr.has_subagent(id));
    }
    let progress = mgr.get_subagent_progress();
    assert_eq!(progress.len(), 3);
    for (id, p) in &progress {
        assert_eq!(&p.subagent_id, id);
        assert_eq!(p.turn, 1);
    }
}

#[test]
fn spawn_with_zero_budget_registers_nothing() {
    let mut mgr = SubAgentManager::new();
    let args = SpawnSubAgentArgs::new("r".to_string(), "m".to_string()).with_max_turns(0);
    let res = mgr.spawn_interactive_subagent(args, plain_recipe("r"), &Vec::new());
    assert_eq!(res, Err(ManagerError::LimitExceeded(0)));
    assert_eq!(mgr.get_active_count(), 0);
    assert!(mgr.list_subagents().is_empty());
}

#[test]
fn terminate_removes_entry_and_further_replies_are_rejected() {
    let mut mgr = SubAgentManager::new();
    let id = spawn(&mut mgr, "worker", "go");
    finish_round(&mut mgr, &id, "done");

    assert_eq!(mgr.terminate_subagent(&id), Ok(()));
    assert!(mgr.list_subagents().is_empty());

    let rejected = mgr.reply_to_subagent(&id, "more".to_string());
    assert_eq!(rejected, Err(ManagerError::NotFound(id.clone())));
}

#[test]
fn terminate_unknown_id_reports_not_found() {
    let mut mgr = SubAgentManager::new();
    let ghost_id = "no-such-worker".to_string();
    let res = mgr.terminate_subagent(&ghost_id);
    assert_eq!(res, Err(ManagerError::NotFound(ghost_id.clone())));
    assert_eq!(
        res.unwrap_err().text(),
        "Subagent no-such-worker not found".to_string()
    );
}

#[test]
fn terminate_all_empties_the_registry() {
    let mut mgr = SubAgentManager::new();
    for k in 0..4 {
        spawn(&mut mgr, &format!("recipe-{k}"), "start");
    }
    assert_eq!(mgr.get_active_count(), 4);
    let retired = mgr.terminate_all_subagents();
    assert_eq!(retired, 4);
    assert!(mgr.list_subagents().is_empty());
    assert_eq!(mgr.get_active_count(), 0);
}

#[test]
fn cleanup_removes_only_terminal_entries() {
    let mut mgr = SubAgentManager::new();
    let processing = spawn(&mut mgr, "a", "one");
    let ready = spawn(&mut mgr, "b", "two");
    finish_round(&mut mgr, &ready, "ok");
    let completed = spawn(&mut mgr, "c", "three");
    let step = mgr.resolve_provider_for(
        &completed,
        ProviderOutcome::ContextLengthExceeded("too long".to_string()),
    );
    assert!(step.is_ok());

    let removed = mgr.cleanup_completed_subagents();
    assert_eq!(removed, 1);
    let ids = mgr.list_subagents();
    assert_eq!(ids.len(), 2);
    assert!(ids.contains(&processing));
    assert!(ids.contains(&ready));
    assert!(!ids.contains(&completed));

    let statuses = mgr.get_subagent_status();
    for (id, status) in &statuses {
        if id == &processing {
            assert_eq!(*status, SubAgentStatus::Processing);
        }
        if id == &ready {
            assert_eq!(*status, SubAgentStatus::Ready);
        }
    }
}

#[test]
fn cleanup_on_all_live_removes_nothing() {
    let mut mgr = SubAgentManager::new();
    let a = spawn(&mut mgr, "a", "one");
    let b = spawn(&mut mgr, "b", "two");
    assert_eq!(mgr.cleanup_completed_subagents(), 0);
    let ids = mgr.list_subagents();
    assert_eq!(ids, vec![a, b]);
}

#[test]
fn send_message_appends_and_acknowledges() {
    let mut mgr = SubAgentManager::new();
    let id = spawn(&mut mgr, "listener", "hello");
    finish_round(&mut mgr, &id, "hi there");

    let ack = mgr
        .send_message_to_subagent(&id, "a note".to_string())
        .expect("known id");
    assert_eq!(ack, format!("Message sent to subagent {id}"));

    let agent = mgr.get_subagent(&id).expect("registered");
    let conversation = agent.get_conversation();
    assert_eq!(conversation.len(), 3);
    assert_eq!(conversation[2].role, Role::User);
    assert_eq!(conversation[2].text, "a note".to_string());
}

#[test]
fn send_message_to_unknown_id_reports_not_found() {
    let mut mgr = SubAgentManager::new();
    let res = mgr.send_message_to_subagent(&"missing".to_string(), "x".to_string());
    assert_eq!(res, Err(ManagerError::NotFound("missing".to_string())));
}

#[test]
fn get_subagent_finds_only_registered_ids() {
    let mut mgr = SubAgentManager::new();
    let id = spawn(&mut mgr, "solo", "begin");
    assert!(mgr.get_subagent(&id).is_some());
    assert!(mgr.get_subagent(&"other".to_string()).is_none());
    assert!(!mgr.has_subagent(&"other".to_string()));
}
