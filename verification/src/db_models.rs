//! The persistence records the assistant keeps, as plain values. The store
//! itself (a SQL database) lives outside the library; these are the rows it
//! exchanges with the rest of the system.

use vstd::prelude::*;
use vstd::string::*;

verus! {

/// A known user of the assistant.
pub struct User {
    /// The chat platform's user id.
    pub id: i64,
    pub username: String,
    pub locale: String,
    pub created_at: String,
    pub updated_at: String,
}

/// An uploaded CV; at most one per user is active at a time.
pub struct BaseCv {
    pub id: i64,
    pub user_id: i64,
    pub filename: String,
    pub original_name: String,
    pub file_path: String,
    pub file_size: i64,
    pub mime_type: Option<String>,
    pub extracted_text: Option<String>,
    /// Structured data recovered from the CV, as a JSON document.
    pub parsed_data: Option<String>,
    pub is_active: bool,
    pub created_at: String,
}

/// One tracked job application, with everything generated for it.
pub struct JobApplication {
    pub id: i64,
    pub user_id: i64,
    pub base_cv_id: i64,
    pub job_title: Option<String>,
    pub company: Option<String>,
    pub location: Option<String>,
    pub job_url: Option<String>,
    pub raw_job_description: String,
    pub job_synthesis: Option<String>,
    /// JSON documents, as the analysis produced them.
    pub required_skills: Option<String>,
    pub matching_skills: Option<String>,
    pub missing_skills: Option<String>,
    pub match_score: Option<i32>,
    pub salary_min: Option<i32>,
    pub salary_max: Option<i32>,
    pub salary_currency: String,
    pub salary_analysis: Option<String>,
    pub generated_cv_path: Option<String>,
    pub generated_cv_format: String,
    pub cover_letter: Option<String>,
    pub cover_letter_generated_at: Option<String>,
    /// The chat thread that tracks this application.
    pub thread_id: Option<i64>,
    pub status: String,
    pub applied_at: Option<String>,
    pub notes: Option<String>,
    pub reminder_date: Option<String>,
    pub reminder_sent: bool,
    pub created_at: String,
    pub updated_at: String,
}

/// A reminder, either tied to an application or free-standing.
pub struct Reminder {
    pub id: i64,
    pub user_id: i64,
    pub application_id: Option<i64>,
    pub channel_id: i64,
    pub reminder_date: String,
    pub message: String,
    pub is_sent: bool,
    pub created_at: String,
}

/// One status change of an application, for its history.
pub struct ApplicationStatusHistory {
    pub id: i64,
    pub application_id: i64,
    pub old_status: Option<String>,
    pub new_status: String,
    pub note: Option<String>,
    pub changed_at: String,
}

/// Where the database file lives, relative to the working directory.
pub fn get_db_path() -> (r: String)
    ensures
        r@ == "dbLookout/bot.db"@,
{
    String::from_str("dbLookout/bot.db")
}

} // verus!
