//! Verified logic of the POMC Minecraft client and its launcher: the parts made of integers, text and decisions.
pub mod clock;
pub mod auth;
pub mod buckets;
pub mod chat;
pub mod controls;
pub mod crypto;
pub mod downloader;
pub mod drain;
pub mod gpu;
pub mod hud;
pub mod image;
pub mod interaction;
pub mod installations;
pub mod light;
pub mod menu;
pub mod mesher;
pub mod model;
pub mod net;
pub mod packets;
pub mod search;
pub mod servers;
pub mod settings;
pub mod sound;
pub mod storage;
pub mod text;
