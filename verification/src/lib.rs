//! A live streaming server, as far as it decides and computes: what comes in over RTMP, who may
//! watch, what each viewer is sent, what is recorded.
pub mod accounts;
pub mod announcing;
pub mod api;
pub mod assets;
pub mod auth;
pub mod chat;
pub mod client;
pub mod config;
pub mod connection;
pub mod entering;
pub mod flv;
pub mod ingest;
pub mod outside;
pub mod pages;
pub mod recording;
pub mod rtmp;
pub mod state;
pub mod store;
pub mod streams;
pub mod tapes;
pub mod text;
pub mod types;
pub mod viewer;
pub mod views;
pub mod watching;
pub mod wire;
pub mod words;
