//! Verified core of the Aquilla-12 twelve-channel voice gateway.

pub mod answers;
pub mod assets;
pub mod calls;
pub mod config;
pub mod console;
pub mod crypto;
pub mod dialogue;
pub mod dispatch;
pub mod ed137;
pub mod events;
pub mod form;
pub mod form_errors;
pub mod form_fields;
pub mod form_save;
pub mod hid_panel;
pub mod jitter;
pub mod listener;
pub mod messages;
pub mod order;
pub mod page;
pub mod page_frame;
pub mod page_text;
pub mod panel_loop;
pub mod phc;
pub mod reception;
pub mod replies;
pub mod rtp;
pub mod settings;
pub mod sip;
pub mod state;
pub mod stream;
pub mod telemetry;
pub mod text;
pub mod ulaw;
