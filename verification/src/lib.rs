pub mod errors;
pub mod orchestrate;
pub mod request;
pub mod supervisor;
pub mod topology;
