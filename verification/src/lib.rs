pub mod arrivals;
pub mod atlas;
pub mod bench;
pub mod camera;
pub mod chapters;
pub mod chips;
pub mod cli;
pub mod commands;
pub mod events;
pub mod flex;
pub mod grid;
pub mod handoff;
pub mod ingest;
pub mod input;
pub mod keys;
pub mod laws;
pub mod library;
pub mod live;
pub mod measure;
pub mod media;
pub mod metas;
pub mod model;
pub mod overlay;
pub mod overrides;
pub mod picture;
pub mod printout;
pub mod report;
pub mod ribbon;
pub mod rng;
pub mod scene;
pub mod select;
pub mod start;
pub mod state;
pub mod stats;
pub mod step;
pub mod table;
pub mod text;
pub mod tuning;

