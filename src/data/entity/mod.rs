pub mod ability;
pub mod attribute;
pub mod mob;
pub mod npc;
pub mod teleport;
