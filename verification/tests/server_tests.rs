use jilebi::env::{EnvType, PluginEnv};
use jilebi::manifest::{manifest_from_text, Manifest, PromptRole};
use jilebi::mcp::{
    find_plugin, find_prompt, find_resource, find_tool, get_plugin_and_section_name, get_prompt, list_prompts,
    list_resources, list_tools, message_from_render, plugin_environment, render_prompt, McpErrorKind, McpSection,
};

const WEATHER: &str = r#"
name = "weather"
[resources.current]
name = "current"
function = "current"
[tools.forecast]
name = "forecast"
input_schema = { type = "object" }
function = "forecast"
[tools.two-words]
name = "two words"
input_schema = { type = "object" }
function = "two"
[prompts.report]
name = "report"
description = "A weather report"
messages = [
  { role = "user", content = { type = "text", content = "Weather for {{city}}" } },
  { role = "assistant", content = { type = "text", content = "Sunny in {{city}}{{#if note}} ({{note}}){{/if}}" } },
]
[prompts.broken]
name = "broken"
messages = [ { role = "user", content = { type = "text", content = "Hello {{invalid" } } ]
"#;

const NEWS: &str = r#"
name = "news"
[resources]
[tools.headlines]
name = "headlines"
input_schema = { type = "object" }
function = "headlines"
[prompts]
"#;

fn plugins() -> Vec<(String, Manifest)> {
    vec![
        ("weather".to_string(), manifest_from_text(WEATHER).unwrap()),
        ("news".to_string(), manifest_from_text(NEWS).unwrap()),
    ]
}

fn args(pairs: &[(&str, &str)]) -> Vec<(String, String)> {
    pairs.iter().map(|(k, v)| (k.to_string(), v.to_string())).collect()
}

#[test]
fn qualified_names_split_into_plugin_and_entry() {
    let (p, e) = get_plugin_and_section_name("weather_forecast", McpSection::Tool).unwrap();
    assert_eq!(p, "weather");
    assert_eq!(e, "forecast");
    let (p, e) = get_plugin_and_section_name("weather_two words", McpSection::Tool).unwrap();
    assert_eq!(p, "weather");
    assert_eq!(e, "two-words");
    let (p, e) = get_plugin_and_section_name("a_b_c", McpSection::Resource).unwrap();
    assert_eq!(p, "a");
    assert_eq!(e, "b");
}

#[test]
fn name_without_separator_is_refused() {
    let err = get_plugin_and_section_name("weather", McpSection::Prompt).unwrap_err();
    assert_eq!(err.kind, McpErrorKind::InvalidRequest);
    assert_eq!(err.message, "The name of the Prompt is incorrect");
    let err = get_plugin_and_section_name("", McpSection::Resource).unwrap_err();
    assert_eq!(err.message, "The name of the Resource is incorrect");
    assert_eq!(McpSection::Tool.label(), "Tool");
}

#[test]
fn listed_tool_names_resolve_back_to_their_tools() {
    let ps = plugins();
    for tool in list_tools(&ps) {
        let (p, e) = get_plugin_and_section_name(&tool.name, McpSection::Tool).unwrap();
        let found = find_tool(&ps, &p, &e).unwrap();
        assert_eq!(found.function, tool.function);
    }
}

#[test]
fn lookups_report_unknown_plugins_and_entries() {
    let ps = plugins();
    assert_eq!(find_plugin(&ps, "news").unwrap().name, "news");
    let err = find_plugin(&ps, "sports").unwrap_err();
    assert_eq!(err.message, "The plugin name provided is either invalid or has been removed");
    let err = find_tool(&ps, "weather", "rain").unwrap_err();
    assert_eq!(err.kind, McpErrorKind::InvalidRequest);
    assert_eq!(err.message, "The tool name provided is either invalid or has been removed");
    let err = find_resource(&ps, "news", "current").unwrap_err();
    assert_eq!(err.message, "The resource name provided is either invalid or has been removed");
    assert_eq!(find_resource(&ps, "weather", "current").unwrap().uri, "weather_current");
    let err = find_prompt(&ps, "news", "report").unwrap_err();
    assert_eq!(err.message, "The prompt name provided is either invalid or has been removed");
    let err = find_tool(&ps, "sports", "x").unwrap_err();
    assert_eq!(err.message, "The plugin name provided is either invalid or has been removed");
}

#[test]
fn lists_cover_every_plugin_in_order() {
    let ps = plugins();
    let tools: Vec<String> = list_tools(&ps).iter().map(|t| t.name.clone()).collect();
    assert_eq!(tools, vec!["weather_forecast", "weather_two words", "news_headlines"]);
    let resources: Vec<String> = list_resources(&ps).iter().map(|r| r.name.clone()).collect();
    assert_eq!(resources, vec!["current"]);
    let prompts: Vec<String> = list_prompts(&ps).iter().map(|p| p.name.clone()).collect();
    assert_eq!(prompts, vec!["weather_broken", "weather_report"]);
}

#[test]
fn prompt_is_rendered_with_arguments() {
    let ps = plugins();
    let reply = get_prompt(&ps, "weather_report", r#"{"city":"Pune"}"#).unwrap();
    assert_eq!(reply.description.as_deref(), Some("A weather report"));
    assert_eq!(reply.messages.len(), 2);
    assert!(matches!(reply.messages[0].role, PromptRole::User));
    assert_eq!(reply.messages[0].text, "Weather for Pune");
    assert!(matches!(reply.messages[1].role, PromptRole::Assistant));
    assert_eq!(reply.messages[1].text, "Sunny in Pune");
    let reply = get_prompt(&ps, "weather_report", r#"{"city":"Pune","note":"windy"}"#).unwrap();
    assert_eq!(reply.messages[1].text, "Sunny in Pune (windy)");
}

#[test]
fn rendering_escapes_html_in_arguments() {
    let ps = plugins();
    let reply = get_prompt(&ps, "weather_report", r#"{"city":"<b>Oslo</b>"}"#).unwrap();
    assert_eq!(reply.messages[0].text, "Weather for &lt;b&gt;Oslo&lt;/b&gt;");
}

#[test]
fn prompt_errors() {
    let ps = plugins();
    let err = get_prompt(&ps, "weather_broken", "{}").unwrap_err();
    assert_eq!(err.kind, McpErrorKind::InternalError);
    assert_eq!(err.message, "error parsing prompt handlerbars");
    let err = get_prompt(&ps, "weatherreport", "{}").unwrap_err();
    assert_eq!(err.message, "The name of the Prompt is incorrect");
    let err = get_prompt(&ps, "sports_report", "{}").unwrap_err();
    assert_eq!(err.message, "The plugin name provided is either invalid or has been removed");
    let err = get_prompt(&ps, "news_report", "{}").unwrap_err();
    assert_eq!(err.message, "The prompt name provided is either invalid or has been removed");
}

#[test]
fn prompt_arguments_keep_their_json_values() {
    let manifest = manifest_from_text(
        r#"
name = "flags"
[resources]
[tools]
[prompts.check]
name = "check"
messages = [ { role = "user", content = { type = "text", content = "{{#if flag}}on{{else}}off{{/if}} {{count}}" } } ]
"#,
    )
    .unwrap();
    let ps = vec![("flags".to_string(), manifest)];
    let reply = get_prompt(&ps, "flags_check", r#"{"flag":false,"count":3}"#).unwrap();
    assert_eq!(reply.messages[0].text, "off 3");
    let reply = get_prompt(&ps, "flags_check", r#"{"flag":true,"count":3}"#).unwrap();
    assert_eq!(reply.messages[0].text, "on 3");
    let reply = get_prompt(&ps, "flags_check", r#"{"flag":"false"}"#).unwrap();
    assert_eq!(reply.messages[0].text, "on ");
    let err = get_prompt(&ps, "flags_check", "[1, 2]").unwrap_err();
    assert_eq!(err.message, "error parsing prompt handlerbars");
}

#[test]
fn message_from_a_render() {
    let ps = plugins();
    let prompt = find_prompt(&ps, "weather", "report").unwrap();
    let m = message_from_render(&prompt.content[1], Some("done".to_string())).unwrap();
    assert!(matches!(m.role, PromptRole::Assistant));
    assert_eq!(m.text, "done");
    let err = message_from_render(&prompt.content[1], None).unwrap_err();
    assert_eq!(err.kind, McpErrorKind::InternalError);
    let reply = render_prompt(prompt, r#"{"city":"X"}"#).unwrap();
    assert_eq!(reply.messages[0].text, "Weather for X");
}

#[test]
fn environment_names_the_plugin_and_its_variables() {
    let envs = vec![
        PluginEnv::new("URL".to_string(), "http://x".to_string(), EnvType::Normal, "{}".to_string()),
        PluginEnv::new("TOKEN".to_string(), "t0k".to_string(), EnvType::Secret, "{}".to_string()),
        PluginEnv::new("URL".to_string(), "http://y".to_string(), EnvType::Normal, "{}".to_string()),
    ];
    let env = plugin_environment("weather", &envs);
    assert_eq!(env, args(&[("URL", "http://y"), ("TOKEN", "t0k"), ("id", "weather")]));
    let with_id = vec![PluginEnv::new("id".to_string(), "other".to_string(), EnvType::Normal, "{}".to_string())];
    assert_eq!(plugin_environment("weather", &with_id), args(&[("id", "weather")]));
}

#[test]
fn listed_resources_and_prompts_resolve_back() {
    let ps = plugins();
    for resource in list_resources(&ps) {
        let (p, e) = get_plugin_and_section_name(&resource.uri, McpSection::Resource).unwrap();
        assert_eq!(find_resource(&ps, &p, &e).unwrap().function, resource.function);
    }
    for prompt in list_prompts(&ps) {
        let (p, e) = get_plugin_and_section_name(&prompt.name, McpSection::Prompt).unwrap();
        assert_eq!(find_prompt(&ps, &p, &e).unwrap().name, prompt.name);
    }
}
