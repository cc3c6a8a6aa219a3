pub mod attempt_laws;
pub mod backend;
pub mod chunks;
pub mod commands;
pub mod croc;
pub mod croc_laws;
pub mod croc_text;
pub mod describe;
pub mod destination;
pub mod file_name;
pub mod finalize;
pub mod ident;
pub mod io_kind;
pub mod manifest;
pub mod native;
pub mod path;
pub mod path_order;
pub mod platform;
pub mod presentation;
pub mod presentation_laws;
pub mod progress;
pub mod relay;
pub mod resume;
pub mod resume_store;
pub mod scan;
pub mod screen;
pub mod session;
pub mod settings;
pub mod settings_laws;
pub mod source_scan;
pub mod source_step_laws;
pub mod source_walk;
pub mod source_walk_laws;
pub mod staging;
pub mod staging_laws;
pub mod text;
pub mod transfer;
pub mod transfer_laws;
pub mod transfer_model;
pub mod transfer_step_laws;
pub mod wire;
