pub mod amm_events;
pub mod block_notification;
pub mod pubkey_borsh;
pub mod pump_events;
pub mod pump_idl;
