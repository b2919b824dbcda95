//! Parameter and response shapes of the student CRUD endpoints.
//!
//! Every CRUD handler is a thin adapter onto the generic database
//! dispatch: it forwards one of these shapes to a named stored procedure
//! and relays the JSON result. These types carry the plain values; the
//! HTTP and database layers convert at the edge.

use vstd::prelude::*;

verus! {

/// One student record, every field optional as the stored procedures
/// accept partial records.
pub struct Student {
    pub student_id: Option<i32>,
    pub first_name: Option<String>,
    pub last_name: Option<String>,
    pub grade: Option<i32>,
}

/// The body of a request that creates or updates a student: the
/// procedure's mode selector and the record.
pub struct SetStudentParams {
    pub mode: i32,
    pub student: Student,
}

/// The body of a request that deletes a student by identifier.
pub struct DeleteStudentParams {
    pub mode: i32,
    pub student_id: Option<i32>,
}

/// The status-and-message shape the stored procedures answer with.
pub struct DatabaseResponse {
    pub status: String,
    pub message: String,
}

impl SetStudentParams {
    /// Builds the parameters for a create or update call.
    pub fn new(mode: i32, student: Student) -> (r: Self)
        ensures
            r.mode == mode,
            r.student == student,
    {
        SetStudentParams { mode, student }
    }
}

impl DeleteStudentParams {
    /// Builds the parameters for a delete call.
    pub fn new(mode: i32, student_id: Option<i32>) -> (r: Self)
        ensures
            r.mode == mode,
            r.student_id == student_id,
    {
        DeleteStudentParams { mode, student_id }
    }
}

} // verus!
