use vstd::prelude::*;

use crate::text::{i32_to_decimal, lemma_signed_decimal_reads_back, reads_as_signed, signed_decimal};

verus! {

/// A student's submission to the engineering faculty's endpoint.
#[derive(Debug, PartialEq, Eq)]
pub struct Submission {
    pub student: String,
    pub age: i32,
    pub faculty: String,
    pub discipline: i32,
}

/// The line the service logs for a submission.
pub open spec fn submission_log_text(student: Seq<char>, age: i32, faculty: Seq<char>, discipline: i32) -> Seq<char> {
    "Student: "@ + student + ", Age: "@ + signed_decimal(age as int) + ", Faculty: "@ + faculty
        + ", Discipline: "@ + signed_decimal(discipline as int)
}

/// The body of the service's answer to a submission.
pub open spec fn submission_response_text(student: Seq<char>, age: i32, faculty: Seq<char>, discipline: i32) -> Seq<char> {
    "Received student: "@ + student + ", age: "@ + signed_decimal(age as int) + ", faculty: "@
        + faculty + ", discipline: "@ + signed_decimal(discipline as int)
}

/// Whether `s` is the log layout filled with the given fields (age and
/// discipline as text).
pub open spec fn log_with_fields(
    s: Seq<char>,
    student: Seq<char>,
    age: Seq<char>,
    faculty: Seq<char>,
    discipline: Seq<char>,
) -> bool {
    s == "Student: "@ + student + ", Age: "@ + age + ", Faculty: "@ + faculty + ", Discipline: "@
        + discipline
}

/// Whether `s` is the answer layout filled with the given fields (age and
/// discipline as text).
pub open spec fn response_with_fields(
    s: Seq<char>,
    student: Seq<char>,
    age: Seq<char>,
    faculty: Seq<char>,
    discipline: Seq<char>,
) -> bool {
    s == "Received student: "@ + student + ", age: "@ + age + ", faculty: "@ + faculty
        + ", discipline: "@ + discipline
}

/// The log line echoes the submission as it was sent: the student and faculty
/// texts themselves, and an age and discipline that read back as the submitted
/// numbers.
pub proof fn lemma_log_line_echoes(student: Seq<char>, age: i32, faculty: Seq<char>, discipline: i32)
    ensures
        exists|a: Seq<char>, d: Seq<char>|
            #[trigger] log_with_fields(submission_log_text(student, age, faculty, discipline), student, a, faculty, d)
                && reads_as_signed(a, age as int) && reads_as_signed(d, discipline as int),
{
    lemma_signed_decimal_reads_back(age as int);
    lemma_signed_decimal_reads_back(discipline as int);
    assert(log_with_fields(
        submission_log_text(student, age, faculty, discipline),
        student,
        signed_decimal(age as int),
        faculty,
        signed_decimal(discipline as int),
    ));
}

/// The answer echoes the submission as it was sent: the student and faculty
/// texts themselves, and an age and discipline that read back as the submitted
/// numbers.
pub proof fn lemma_response_echoes(student: Seq<char>, age: i32, faculty: Seq<char>, discipline: i32)
    ensures
        exists|a: Seq<char>, d: Seq<char>|
            #[trigger] response_with_fields(
                submission_response_text(student, age, faculty, discipline),
                student,
                a,
                faculty,
                d,
            ) && reads_as_signed(a, age as int) && reads_as_signed(d, discipline as int),
{
    lemma_signed_decimal_reads_back(age as int);
    lemma_signed_decimal_reads_back(discipline as int);
    assert(response_with_fields(
        submission_response_text(student, age, faculty, discipline),
        student,
        signed_decimal(age as int),
        faculty,
        signed_decimal(discipline as int),
    ));
}

impl Submission {
    /// The line the service logs for this submission.
    pub fn log_line(&self) -> (line: String)
        ensures
            line@ == submission_log_text(self.student@, self.age, self.faculty@, self.discipline),
    {
        let mut line = "Student: ".to_owned();
        line.append(self.student.as_str());
        line.append(", Age: ");
        line.append(i32_to_decimal(self.age).as_str());
        line.append(", Faculty: ");
        line.append(self.faculty.as_str());
        line.append(", Discipline: ");
        line.append(i32_to_decimal(self.discipline).as_str());
        line
    }

    /// The body of the answer to this submission.
    pub fn response_body(&self) -> (body: String)
        ensures
            body@ == submission_response_text(self.student@, self.age, self.faculty@, self.discipline),
    {
        let mut body = "Received student: ".to_owned();
        body.append(self.student.as_str());
        body.append(", age: ");
        body.append(i32_to_decimal(self.age).as_str());
        body.append(", faculty: ");
        body.append(self.faculty.as_str());
        body.append(", discipline: ");
        body.append(i32_to_decimal(self.discipline).as_str());
        body
    }
}

} // verus!
