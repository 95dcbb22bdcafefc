//! The expansion logic of the derive and attribute macros of a Solana program
//! framework: from syntax as plain values to generated code as text.

pub mod account;
pub mod account_fields;
pub mod account_groups;
pub mod account_laws;
pub mod account_texts;
pub mod accounts;
pub mod args;
pub mod attr_laws;
pub mod attrs;
pub mod call_laws;
pub mod cpi_accounts;
pub mod declared_constants;
pub mod declared_errors;
pub mod declared_events;
pub mod declared_laws;
pub mod declared_program;
pub mod declared_texts;
pub mod declared_types;
pub mod derive_order;
pub mod discriminator;
pub mod event;
pub mod event_laws;
pub mod event_texts;
pub mod failure;
pub mod field_attrs;
pub mod group_laws;
pub mod handler;
pub mod handler_fn;
pub mod handler_laws;
pub mod handler_texts;
pub mod idl_type;
pub mod instruction_attrs;
pub mod item_laws;
pub mod item_texts;
pub mod items;
pub mod json;
pub mod lifetimes;
pub mod modes;
pub mod names;
pub mod nested_meta;
pub mod outside;
pub mod passages;
pub mod pod_fields;
pub mod pod_messages;
pub mod program;
pub mod program_config;
pub mod program_laws;
pub mod program_texts;
pub mod qualified_path;
pub mod reading;
pub mod rule_laws;
pub mod run_time;
pub mod seed_laws;
pub mod syntax;
pub mod template;
pub mod text;
pub mod text_laws;
pub mod type_defs;
pub mod type_laws;
pub mod type_parts;
pub mod type_texts;
pub mod wincode;
pub mod word_laws;
pub mod wrappers;
