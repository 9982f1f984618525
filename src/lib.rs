pub mod chunk;
pub mod scanner;
pub mod token;
pub mod value;
pub mod virtual_machine;
