pub mod alignment_schema;
pub mod date_ops;
pub mod environ_ops;
pub mod find_gaps;
pub mod google;
pub mod job_description;
pub mod jwt_ops;
pub mod laws;
pub mod login_interceptor;
pub mod payload;
pub mod queue_ops;
pub mod resume;
pub mod resume_models;
pub mod resume_score;
pub mod store;
