use chatatui::commands::{
    available_commands, get_autocomplete_suggestion, get_matching_commands, models_found,
    searched_models,
};

fn names(commands: Vec<(String, String)>) -> Vec<String> {
    commands.into_iter().map(|c| c.0).collect()
}

fn owned(parts: &[&str]) -> Vec<String> {
    parts.iter().map(|p| p.to_string()).collect()
}

#[test]
fn commands_in_their_order() {
    let all = available_commands();
    assert_eq!(all[0], ("/new".to_string(), "Create new thread".to_string()));
    assert_eq!(all[1], ("/model".to_string(), "Select or switch model".to_string()));
    assert_eq!(all[2], ("/mcp".to_string(), "List MCP servers and tools".to_string()));
    assert_eq!(all[3], ("/copy".to_string(), "Copy last message to clipboard".to_string()));
    assert_eq!(all[4], ("/help".to_string(), "Show available commands".to_string()));
    assert_eq!(all.len(), 5);
}

#[test]
fn commands_that_match() {
    assert_eq!(names(get_matching_commands("/m")), owned(&["/model", "/mcp"]));
    assert_eq!(names(get_matching_commands("/help")), owned(&["/help"]));
    assert_eq!(get_matching_commands("/helpx").len(), 0);
    assert_eq!(get_matching_commands("/").len(), 5);
    assert_eq!(get_matching_commands("").len(), 5);
}

#[test]
fn suggestion_completes_the_input() {
    assert_eq!(get_autocomplete_suggestion("/n"), Some("/new".to_string()));
    assert_eq!(get_autocomplete_suggestion("/mo"), Some("/model".to_string()));
    assert_eq!(get_autocomplete_suggestion("/copy"), Some("/copy".to_string()));
    assert_eq!(get_autocomplete_suggestion("/m"), None);
    assert_eq!(get_autocomplete_suggestion("/x"), None);
    assert_eq!(get_autocomplete_suggestion("new"), None);
    assert_eq!(get_autocomplete_suggestion(""), None);
}

#[test]
fn models_are_searched_without_case() {
    let models = owned(&["Llama3", "gpt-4", "LLAMA2", "ÄRGER"]);
    assert_eq!(searched_models(&models, "llama"), owned(&["Llama3", "LLAMA2"]));
    assert_eq!(searched_models(&models, "GPT"), owned(&["gpt-4"]));
    assert_eq!(searched_models(&models, "ärg"), owned(&["ÄRGER"]));
    assert_eq!(searched_models(&models, "zzz"), owned(&[]));
}

#[test]
fn empty_search_finds_every_model() {
    let models = owned(&["b", "a", "b"]);
    assert_eq!(searched_models(&models, ""), models);
}

#[test]
fn models_found_by_their_lower_case() {
    let models = owned(&["A", "B", "C"]);
    let lowered = owned(&["xa", "b", "ax"]);
    assert_eq!(models_found(&models, &lowered, "a"), owned(&["A", "C"]));
    assert_eq!(models_found(&models, &lowered, ""), models);
}

#[test]
fn ascii_case_does_not_count() {
    for n in 0..128u8 {
        let c = n as char;
        let models = owned(&[&format!("x{}y", c.to_ascii_uppercase())]);
        for search in [c.to_ascii_lowercase(), c.to_ascii_uppercase()] {
            assert_eq!(searched_models(&models, &search.to_string()), models);
        }
    }
    assert_eq!(searched_models(&owned(&["@", "["]), "`"), owned(&[]));
}
