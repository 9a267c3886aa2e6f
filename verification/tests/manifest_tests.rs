use jilebi::env::{get_envs_from_manifest, EnvType};
use jilebi::manifest::{
    get_permissions_from_manifest, manifest_from_text, validate_section_key_name, PromptRole, Tools,
};
use jilebi::toml_doc::{parse_toml, TomlValue};

const README_MANIFEST: &str = r#"
# Metadata
name = "my-plugin"
version = "1.0.0"
homepage = "github.com/user/my-plugin"
creator = "Your Name"
contact = "you@example.com"

# Environment Variables
[env]
API_URL = { schema = { type = "string" }, default = "https://api.example.com" }

# Secrets (no defaults allowed)
[secrets]
API_KEY = { schema = { type = "string" } }

# Tools
[tools.my-tool]
name = "my-tool"
description = "Description of what this tool does"
input_schema = { type = "object", properties = { param = { type = "string" } }, required = ["param"] }
function = "my_tool_function"

[tools.my-tool.permissions]
hosts = ["https://api.example.com"]

# Resources
[resources.my-resource]
name = "my-resource"
description = "Description of this resource"
mime_type = "application/json"
function = "get_resource"

# Prompts
[prompts.my-prompt]
name = "my-prompt"
description = "A helpful prompt template"
arguments = [
  { name = "topic", description = "The topic to discuss", required = true }
]
messages = [
  { role = "user", content = { type = "text", content = "Tell me about {{topic}}" } }
]
"#;

#[test]
fn readme_manifest_reads() {
    let m = manifest_from_text(README_MANIFEST).unwrap();
    assert_eq!(m.name, "my-plugin");
    assert_eq!(m.tools.0.len(), 1);
    let (key, tool) = &m.tools.0[0];
    assert_eq!(key, "my-tool");
    assert_eq!(tool.name, "my-plugin_my-tool");
    assert_eq!(tool.title, "my-tool");
    assert_eq!(tool.description.as_deref(), Some("Description of what this tool does"));
    assert_eq!(tool.function, "my_tool_function");
    assert!(matches!(tool.input_schema, TomlValue::Table(_)));
    assert!(tool.output_schema.is_none());
    assert!(tool.annotations.is_none());
    let perms = tool.permissions.as_ref().unwrap();
    assert_eq!(perms.hosts, vec!["https://api.example.com".to_string()]);

    let (rkey, res) = &m.resources.0[0];
    assert_eq!(rkey, "my-resource");
    assert_eq!(res.name, "my-resource");
    assert_eq!(res.uri, "my-plugin_my-resource");
    assert_eq!(res.mime_type.as_deref(), Some("application/json"));
    assert_eq!(res.function, "get_resource");
    assert!(res.permissions.is_none());
    assert!(res.size.is_none());

    let (pkey, prompt) = &m.prompts.0[0];
    assert_eq!(pkey, "my-prompt");
    assert_eq!(prompt.name, "my-plugin_my-prompt");
    let args = prompt.arguments.as_ref().unwrap();
    assert_eq!(args.len(), 1);
    assert_eq!(args[0].name, "topic");
    assert_eq!(args[0].required, Some(true));
    assert_eq!(prompt.content.len(), 1);
    assert!(matches!(prompt.content[0].role, PromptRole::User));
    assert_eq!(prompt.content[0].text, "Tell me about {{topic}}");
}

#[test]
fn readme_manifest_envs_and_secrets() {
    let doc = parse_toml(README_MANIFEST).unwrap();
    let envs = get_envs_from_manifest(&doc).unwrap();
    assert_eq!(envs.len(), 2);
    assert_eq!(envs[0].env_name, "API_URL");
    assert_eq!(envs[0].default_value, "https://api.example.com");
    assert_eq!(envs[0].env_type, EnvType::Normal);
    assert_eq!(envs[1].env_name, "API_KEY");
    assert_eq!(envs[1].default_value, "");
    assert_eq!(envs[1].env_type, EnvType::Secret);
}

#[test]
fn secret_default_is_not_used() {
    let doc = parse_toml("[secrets]\nTOKEN = { schema = { type = \"string\" }, default = \"abc\" }\n").unwrap();
    let envs = get_envs_from_manifest(&doc).unwrap();
    assert_eq!(envs[0].default_value, "");
}

#[test]
fn env_without_schema_is_refused() {
    let doc = parse_toml("[env]\nURL = { default = \"x\" }\n").unwrap();
    let err = get_envs_from_manifest(&doc).unwrap_err();
    assert_eq!(err, "Could not find schema for env URL in manifest");
    let none = parse_toml("name = \"p\"\n").unwrap();
    assert!(get_envs_from_manifest(&none).unwrap().is_empty());
}

#[test]
fn manifest_errors_in_order() {
    let e = manifest_from_text("version = \"1\"\n").unwrap_err();
    assert_eq!(e, "Could not convert toml to Manifest struct: The name of the plugin is mandatory");
    let e = manifest_from_text("name = 3\n").unwrap_err();
    assert_eq!(e, "Could not convert toml to Manifest struct: The name of the plugin is not convertible to string");
    let e = manifest_from_text("name = \"p\"\n").unwrap_err();
    assert_eq!(e, "Could not convert toml to Manifest struct: The resources section is mandatory");
    let e = manifest_from_text("name = \"p\"\nresources = 1\n").unwrap_err();
    assert_eq!(e, "Could not convert toml to Manifest struct: Invalid format for Resources section");
    let e = manifest_from_text("name = \"p\"\n[resources]\n").unwrap_err();
    assert_eq!(e, "Could not convert toml to Manifest struct: The tools section is mandatory");
    let e = manifest_from_text("name = \"p\"\n[resources]\n[tools]\n").unwrap_err();
    assert_eq!(e, "Could not convert toml to Manifest struct: The prompts section is mandatory");
    let ok = manifest_from_text("name = \"p\"\n[resources]\n[tools]\n[prompts]\n").unwrap();
    assert!(ok.tools.0.is_empty());
}

#[test]
fn manifest_entry_errors() {
    let e = manifest_from_text("name = \"p\"\n[resources]\nr = 1\n[tools]\n[prompts]\n").unwrap_err();
    assert_eq!(
        e,
        "Could not convert toml to Manifest struct: Invalid format for resource definition r, please check the toml file. Refer the docs:"
    );
    let e = manifest_from_text("name = \"p\"\n[resources]\n[tools.t]\nname = \"t\"\n[prompts]\n").unwrap_err();
    assert_eq!(e, "Could not convert toml to Manifest struct: Missing field input_schema in tool t");
    let e = manifest_from_text("name = \"p\"\n[resources]\n[tools.t]\ninput_schema = 1\n[prompts]\n").unwrap_err();
    assert_eq!(e, "Could not convert toml to Manifest struct: Invalid JSON format for the field input_schema in tool t");
    let e = manifest_from_text(
        "name = \"p\"\n[resources]\n[tools.t1]\ninput_schema = {}\nname = \"t\"\n[prompts]\n",
    )
    .unwrap_err();
    assert_eq!(e, "Could not convert toml to Manifest struct: Missing field function in resource t1");
    let e = manifest_from_text(
        "name = \"p\"\n[resources]\n[tools.t1]\ninput_schema = {}\nname = 5\n[prompts]\n",
    )
    .unwrap_err();
    assert_eq!(e, "Could not convert toml to Manifest struct: Invalid data entered for field name in resource t1");
    let e = manifest_from_text("name = \"p\"\n[resources.A]\nname = \"a\"\nfunction = \"f\"\n[tools]\n[prompts]\n")
        .unwrap_err();
    assert_eq!(
        e,
        "Could not convert toml to Manifest struct: The name set for the tool, resource or prompt has invalid characters. Only lowercase letters, numbers or hyphens are allowed"
    );
}

#[test]
fn unparsable_text_is_reported() {
    let e = manifest_from_text("name = = \n").unwrap_err();
    assert!(e.starts_with("Could not parse the plugin manifest toml file: "));
    let why = parse_toml("name = = \n").unwrap_err();
    assert!(!why.is_empty());
    assert_eq!(e, format!("Could not parse the plugin manifest toml file: {}", why));
}

#[test]
fn key_names_follow_the_pattern() {
    assert!(validate_section_key_name("my-tool").is_ok());
    assert!(validate_section_key_name("ab").is_ok());
    assert!(validate_section_key_name("a").is_ok());
    assert!(validate_section_key_name("tool-2").is_ok());
    assert!(validate_section_key_name("AB").is_err());
    assert!(validate_section_key_name("My_Tool").is_err());
    assert!(validate_section_key_name("my_tool").is_err());
    assert!(validate_section_key_name("my tool").is_err());
    assert!(validate_section_key_name("tool\n").is_err());
    assert!(validate_section_key_name("").is_err());
    assert_eq!(
        validate_section_key_name("X").unwrap_err(),
        "The name set for the tool, resource or prompt has invalid characters. Only lowercase letters, numbers or hyphens are allowed"
    );
}

#[test]
fn tool_annotations_are_read() {
    let doc = parse_toml(
        "[t1]\nname = \"t1\"\ninput_schema = { type = \"object\" }\nfunction = \"f\"\n[t1.annotations]\ntitle = \"Tee\"\nread_only_hint = true\ndestructive_hint = false\n",
    )
    .unwrap();
    let tools = Tools::try_from(&doc, "p").unwrap();
    let a = tools.0[0].1.annotations.as_ref().unwrap();
    assert_eq!(a.title.as_deref(), Some("Tee"));
    assert_eq!(a.read_only_hint, Some(true));
    assert_eq!(a.destructive_hint, Some(false));
    assert_eq!(a.idempotent_hint, None);
    assert_eq!(a.open_world_hint, None);
}

#[test]
fn prompt_message_content_as_text_or_table() {
    let text = "name = \"p\"\n[resources]\n[tools]\n[prompts.qq]\nname = \"qq\"\nmessages = [ { role = \"assistant\", content = \"plain\" }, { content = { type = \"text\", content = \"nested\" } }, { role = \"user\" } ]\n";
    let m = manifest_from_text(text).unwrap();
    let prompt = &m.prompts.0[0].1;
    assert!(prompt.arguments.is_none());
    assert_eq!(prompt.content.len(), 3);
    assert!(matches!(prompt.content[0].role, PromptRole::Assistant));
    assert_eq!(prompt.content[0].text, "plain");
    assert!(matches!(prompt.content[1].role, PromptRole::User));
    assert_eq!(prompt.content[1].text, "nested");
    assert_eq!(prompt.content[2].text, "");
}

#[test]
fn tool_permissions_override_resource_permissions() {
    let text = "name = \"p\"\n[resources.xx]\nname = \"xx\"\nfunction = \"f\"\n[resources.xx.permissions]\nhosts = [\"r\"]\n[tools.xx]\nname = \"xx\"\ninput_schema = {}\nfunction = \"g\"\n[tools.xx.permissions]\nhosts = [\"t\"]\n[tools.yy]\nname = \"yy\"\ninput_schema = {}\nfunction = \"h\"\n[prompts]\n";
    let m = manifest_from_text(text).unwrap();
    let perms = get_permissions_from_manifest(&m);
    assert_eq!(perms.len(), 1);
    assert_eq!(perms[0].0, "xx");
    assert_eq!(perms[0].1.hosts, vec!["t".to_string()]);
}

#[test]
fn resource_size_is_read_under_the_empty_key() {
    let text = "name = \"p\"\n[resources.r1]\nname = \"r1\"\nfunction = \"f\"\n\"\" = \"42\"\n[tools]\n[prompts]\n";
    let m = manifest_from_text(text).unwrap();
    assert_eq!(m.resources.0[0].1.size, Some(42));
}

#[test]
fn toml_errors_carry_the_parser_message() {
    let err = parse_toml("a = = 1\n").unwrap_err();
    assert!(!err.is_empty());
    assert_ne!(err, "a = = 1\n");
    assert!(parse_toml("a = [[1, 2], [3]]\n").is_ok());
}

#[test]
fn toml_text_gives_its_document() {
    let doc = parse_toml("a = [[1, 2], [3]]\nb = { c = \"x\", d = true }\ne = 1.5\n").unwrap();
    let TomlValue::Table(entries) = doc else { panic!("expected a table") };
    assert_eq!(entries.len(), 3);
    assert_eq!(entries[0].0, "a");
    match &entries[0].1 {
        TomlValue::Array(rows) => {
            assert_eq!(rows.len(), 2);
            match &rows[0] {
                TomlValue::Array(xs) => {
                    assert!(matches!(xs[0], TomlValue::Int(1)));
                    assert!(matches!(xs[1], TomlValue::Int(2)));
                }
                _ => panic!("expected an array"),
            }
        }
        _ => panic!("expected an array"),
    }
    assert_eq!(entries[1].0, "b");
    match &entries[1].1 {
        TomlValue::Table(t) => {
            assert_eq!(t[0].0, "c");
            assert!(matches!(&t[0].1, TomlValue::Str(x) if x == "x"));
            assert!(matches!(t[1].1, TomlValue::Bool(true)));
        }
        _ => panic!("expected a table"),
    }
    assert!(matches!(entries[2].1, TomlValue::Float(bits) if bits == 1.5f64.to_bits()));
}
