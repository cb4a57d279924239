pub mod mappings;
pub mod entity_types;
pub mod tracked_index;
pub mod entity_data_types;
