pub mod block;
pub mod block_registry;
pub mod chunk;
pub mod chunk_manager;
pub mod chunk_mesher;
pub mod chunk_updater;
pub mod chunk_updater_new;
pub mod generation;
pub mod manager;
pub mod manager_old;
pub mod mesher;
