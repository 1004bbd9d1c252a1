pub mod ai_learn;
pub mod ai_run;
pub mod cli;
pub mod environment;
pub mod execute;
pub mod formats;
pub mod ids;
pub mod ipc;
pub mod json;
pub mod learn;
pub mod members;
pub mod number;
pub mod path_validate;
pub mod paths;
pub mod pipeline;
pub mod policy;
pub mod runtime_dir;
pub mod schema;
pub mod shell;
pub mod sidecar;
pub mod sidecar_signal;
pub mod signals;
pub mod storage;
pub mod text;
pub mod text_map;
pub mod validate;
