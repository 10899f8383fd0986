use subagents::errors::{ManagerError, ReplyError};
use subagents::recipe::{recipe_candidate_paths, recipe_file_name, str_ends_with};
use subagents::render::{
    format_progress_report, format_spawn_success, format_subagent_list, status_text,
};
use subagents::subagent::{SubAgentConfig, SubAgentProgress, SubAgentStatus};
use subagents::subagent_manager::{SpawnSubAgentArgs, SubAgentManager};
use subagents::recipe::Recipe;
use subagents::text::{join_texts, list_contains, usize_to_string};

#[test]
fn decimal_rendering_is_exact() {
    assert_eq!(usize_to_string(0), "0".to_string());
    assert_eq!(usize_to_string(7), "7".to_string());
    assert_eq!(usize_to_string(10), "10".to_string());
    assert_eq!(usize_to_string(42), "42".to_string());
    assert_eq!(usize_to_string(1009), "1009".to_string());
    assert_eq!(usize_to_string(usize::MAX), usize::MAX.to_string());
}

#[test]
fn join_texts_places_separators_between_neighbours() {
    assert_eq!(join_texts(&vec![], ", "), "".to_string());
    assert_eq!(join_texts(&vec!["a".to_string()], ", "), "a".to_string());
    assert_eq!(
        join_texts(&vec!["a".to_string(), "b".to_string(), "c".to_string()], ", "),
        "a, b, c".to_string()
    );
}

#[test]
fn list_contains_compares_by_value() {
    let items = vec!["one".to_string(), "two".to_string()];
    assert!(list_contains(&items, &"two".to_string()));
    assert!(!list_contains(&items, &"three".to_string()));
    assert!(!list_contains(&Vec::new(), &"one".to_string()));
}

#[test]
fn recipe_names_resolve_to_probe_paths_in_order() {
    let paths = recipe_candidate_paths(&"research_assistant".to_string());
    assert_eq!(
        paths,
        vec![
            "research_assistant.yaml".to_string(),
            "recipes/research_assistant.yaml".to_string(),
            "./recipes/research_assistant.yaml".to_string(),
            "../recipes/research_assistant.yaml".to_string(),
        ]
    );
}

#[test]
fn recognized_recipe_file_names_are_used_verbatim() {
    assert_eq!(recipe_file_name(&"plan.yaml".to_string()), "plan.yaml".to_string());
    assert_eq!(recipe_file_name(&"plan.yml".to_string()), "plan.yml".to_string());
    assert_eq!(recipe_file_name(&"plan".to_string()), "plan.yaml".to_string());
    assert_eq!(recipe_file_name(&"".to_string()), ".yaml".to_string());
}

#[test]
fn suffix_test_checks_characters() {
    assert!(str_ends_with("notes.yaml", ".yaml"));
    assert!(!str_ends_with("notes.yamlx", ".yaml"));
    assert!(!str_ends_with("ml", ".yml"));
    assert!(str_ends_with("anything", ""));
}

#[test]
fn progress_report_renders_every_field() {
    let p = SubAgentProgress {
        subagent_id: "abc-123".to_string(),
        status: SubAgentStatus::Ready,
        message: "Ready to process messages".to_string(),
        turn: 2,
        max_turns: Some(5),
        timestamp: 0,
    };
    assert_eq!(
        format_progress_report(&p),
        "Subagent ID: abc-123\nStatus: Ready\nMessage: Ready to process messages\nTurn: 2/5\nTimestamp: 1970-01-01 00:00:00 UTC"
            .to_string()
    );
}

#[test]
fn progress_report_renders_calendar_timestamps() {
    let p = SubAgentProgress {
        subagent_id: "x".to_string(),
        status: SubAgentStatus::Failed("Error: boom".to_string()),
        message: "Error: boom".to_string(),
        turn: 1,
        max_turns: None,
        timestamp: 1431648000,
    };
    assert_eq!(
        format_progress_report(&p),
        "Subagent ID: x\nStatus: Failed: Error: boom\nMessage: Error: boom\nTurn: 1\nTimestamp: 2015-05-15 00:00:00 UTC"
            .to_string()
    );
}

#[test]
fn status_labels_cover_every_variant() {
    assert_eq!(status_text(&SubAgentStatus::Initializing), "Initializing".to_string());
    assert_eq!(status_text(&SubAgentStatus::Ready), "Ready".to_string());
    assert_eq!(status_text(&SubAgentStatus::Processing), "Processing".to_string());
    assert_eq!(
        status_text(&SubAgentStatus::WaitingForInput),
        "WaitingForInput".to_string()
    );
    assert_eq!(
        status_text(&SubAgentStatus::Completed("done".to_string())),
        "Completed: done".to_string()
    );
    assert_eq!(
        status_text(&SubAgentStatus::Failed("oops".to_string())),
        "Failed: oops".to_string()
    );
    assert_eq!(status_text(&SubAgentStatus::Terminated), "Terminated".to_string());
}

#[test]
fn subagent_listing_renders_heading_and_lines() {
    assert_eq!(format_subagent_list(&Vec::new()), "No active subagents.".to_string());
    let items = vec![
        ("id-1".to_string(), SubAgentStatus::Ready),
        ("id-2".to_string(), SubAgentStatus::Terminated),
    ];
    assert_eq!(
        format_subagent_list(&items),
        "Active subagents:\n- id-1: Ready\n- id-2: Terminated\n".to_string()
    );
}

#[test]
fn spawn_acknowledgement_names_the_id() {
    assert_eq!(
        format_spawn_success(&"w-9".to_string()),
        "Subagent spawned successfully with ID: w-9\nUse platform__get_subagent_status to check progress."
            .to_string()
    );
}

#[test]
fn error_texts_are_exact() {
    assert_eq!(
        ReplyError::LimitExceeded(3).text(),
        "Maximum turns (3) exceeded".to_string()
    );
    assert_eq!(
        ReplyError::NotAccepting.text(),
        "Subagent no longer accepts messages".to_string()
    );
    assert_eq!(
        ManagerError::NotFound("k".to_string()).text(),
        "Subagent k not found".to_string()
    );
    assert_eq!(
        ManagerError::LimitExceeded(0).text(),
        "Maximum turns (0) exceeded".to_string()
    );
}

#[test]
fn formatted_conversation_shows_header_entries_and_footer() {
    let mut mgr = SubAgentManager::new();
    let recipe = Recipe {
        title: "researcher".to_string(),
        instructions: None,
        extensions: None,
    };
    let args = SpawnSubAgentArgs::new("researcher".to_string(), "hello".to_string())
        .with_max_turns(5);
    let id = mgr
        .spawn_interactive_subagent(args, recipe, &Vec::new())
        .unwrap();
    let text = mgr.get_subagent_conversation(&id).unwrap();

    assert!(text.starts_with(&format!("=== Subagent {id} Conversation ===\nRecipe: researcher\nCreated: ")));
    assert!(text.contains("\nStatus: Processing\nTurn: 1/5\n\n"));
    assert!(text.contains("\n\n1. User: hello\n"));
    assert!(text.ends_with("=== End Conversation ===\n"));

    let missing = mgr.get_subagent_conversation(&"none".to_string());
    assert_eq!(missing, Err(ManagerError::NotFound("none".to_string())));
}

#[test]
fn generated_ids_are_hyphenated_uuid_text() {
    let config = SubAgentConfig::new(Recipe {
        title: "t".to_string(),
        instructions: None,
        extensions: None,
    });
    assert_eq!(config.id.len(), 36);
    assert_eq!(config.id.chars().filter(|c| *c == '-').count(), 4);
}
