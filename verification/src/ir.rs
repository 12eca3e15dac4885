pub mod code_generator;
pub mod function_label;
pub mod instructions;
pub mod struct_info;
pub mod type_;
pub mod type_mapping;
pub mod types;
pub mod value;
pub mod variable_slot_table;
