pub mod hash;
pub mod node_map;
pub mod test;
pub mod value_set;
