pub mod announcing;
pub mod answers;
pub mod assoc;
pub mod attachment;
pub mod beginnings;
pub mod client;
pub mod commands;
pub mod conversation;
pub mod deliveries;
pub mod destination;
pub mod endings;
pub mod endpoints;
pub mod events;
pub mod inbound;
pub mod incoming;
pub mod laws;
pub mod ledger;
pub mod link;
pub mod manager;
pub mod metadata;
pub mod notices;
pub mod outgoing;
pub mod overdue;
pub mod packets;
pub mod port;
pub mod query;
pub mod receiving;
pub mod render;
pub mod replies;
pub mod requests;
pub mod resources;
pub mod routing;
pub mod sending;
pub mod setup;
pub mod text;
pub mod tick;
pub mod ticking;
pub mod transport;
pub mod wire;
pub mod wording;
