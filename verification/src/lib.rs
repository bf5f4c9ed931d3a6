pub mod text;
pub mod control_flow;
pub mod transforms;
pub mod tsconfig;
pub mod model;
pub mod package;
pub mod catalog;
pub mod rules;
pub mod pattern;
pub mod dependencies;
pub mod thirdparty;
pub mod detect;
pub mod plan;
pub mod migrate;
pub mod npm;
pub mod cli;
