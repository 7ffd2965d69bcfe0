use icode_cli::app_state::AppState;
use icode_cli::messages::{SubAgentInfo, SubAgentStatus};
use icode_cli::plugin_slots::{PluginRoute, PluginSlot, SlotStyle};

fn agent(name: &str) -> SubAgentInfo {
    SubAgentInfo { name: name.to_string(), status: SubAgentStatus::Running, expanded: false }
}

#[test]
fn sub_agents_join_the_streaming_reply() {
    let mut app = AppState::new();
    app.add_sub_agent(agent("lost"));
    assert!(app.messages.is_empty());
    app.add_user_message("q".to_string());
    app.start_assistant_stream("plan");
    app.add_sub_agent(agent("scout"));
    app.add_sub_agent(agent("scout"));
    assert_eq!(app.messages[0].sub_agents.len(), 0);
    assert_eq!(app.messages[1].sub_agents.len(), 2);
    app.update_sub_agent_status("scout", SubAgentStatus::Completed);
    assert_eq!(app.messages[1].sub_agents[0].status, SubAgentStatus::Completed);
    assert_eq!(app.messages[1].sub_agents[1].status, SubAgentStatus::Running);
    app.update_sub_agent_status("nobody", SubAgentStatus::Failed);
    assert_eq!(app.messages[1].sub_agents[1].status, SubAgentStatus::Running);
    app.toggle_sub_agent_expand(1, 1);
    assert!(app.messages[1].sub_agents[1].expanded);
    app.toggle_sub_agent_expand(1, 1);
    assert!(!app.messages[1].sub_agents[1].expanded);
    app.toggle_sub_agent_expand(1, 5);
    app.toggle_sub_agent_expand(7, 0);
    assert!(!app.messages[1].sub_agents[0].expanded);
    app.finish_stream();
    app.add_sub_agent(agent("late"));
    assert_eq!(app.messages[1].sub_agents.len(), 2);
}

#[test]
fn slots_keep_one_entry_per_plugin_in_order() {
    let mut app = AppState::new();
    app.register_slot_content("a".to_string(), PluginSlot::StatusBar, vec!["one".to_string()], SlotStyle::Normal);
    app.register_slot_content("b".to_string(), PluginSlot::StatusBar, vec!["two".to_string()], SlotStyle::Dim);
    app.register_slot_content("a".to_string(), PluginSlot::HomeTop, vec!["top".to_string()], SlotStyle::Accent);
    app.register_slot_content("a".to_string(), PluginSlot::StatusBar, vec!["three".to_string()], SlotStyle::Normal);
    let bar: Vec<&str> = app.get_slot_content(PluginSlot::StatusBar).iter().map(|c| c.lines[0].as_str()).collect();
    assert_eq!(bar, vec!["two", "three"]);
    assert_eq!(app.get_slot_content(PluginSlot::HomeTop).len(), 1);
    assert!(app.get_slot_content(PluginSlot::SidebarTop).is_empty());
    app.remove_plugin_slot_content("a");
    let bar: Vec<&str> = app.get_slot_content(PluginSlot::StatusBar).iter().map(|c| c.plugin_id.as_str()).collect();
    assert_eq!(bar, vec!["b"]);
    assert!(app.get_slot_content(PluginSlot::HomeTop).is_empty());
}

#[test]
fn routes_of_a_plugin_go_together() {
    let mut app = AppState::new();
    let route = |id: &str| PluginRoute { id: id.to_string(), title: id.to_uppercase() };
    app.register_plugin_route(route("git:log"));
    app.register_plugin_route(route("gitx:log"));
    app.register_plugin_route(route("git:diff"));
    app.remove_plugin_routes_by_plugin("git");
    let ids: Vec<&str> = app.plugin_routes.iter().map(|r| r.id.as_str()).collect();
    assert_eq!(ids, vec!["gitx:log"]);
}
