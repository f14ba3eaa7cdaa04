pub mod error;
pub mod interpreter;
pub mod parser;
pub mod scanner;
pub mod token;
pub mod run;
