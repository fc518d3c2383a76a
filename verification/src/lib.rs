//! In-memory state engine for an online learning platform: users, courses
//! with ordered lessons, quizzes and grading, student enrollments with
//! progress tracking, threaded discussions, and once-only completion
//! certificates. All operations take the resolved caller identity and the
//! current time as plain values supplied by the host.

pub mod hashing;
pub mod ids;
pub mod store;
pub mod text;
pub mod types;
