pub mod activation;
pub mod agent_message_laws;
pub mod body_overrides;
pub mod config_laws;
pub mod config_merge;
pub mod config_projection;
pub mod consistency;
pub mod consistency_laws;
pub mod data_text;
pub mod digest;
pub mod endpoints;
pub mod errors;
pub mod hosted_call_laws;
pub mod hosted_tool_calls;
pub mod hosted_tool_laws;
pub mod hosted_tools;
pub mod http_headers;
pub mod json;
pub mod listing;
pub mod key_paths;
pub mod multi_agent;
pub mod request_laws;
pub mod request_policy;
pub mod text;
pub mod text_map;
pub mod toml_document;
pub mod toml_value;
