pub mod lwwreg;
pub mod table_map;
