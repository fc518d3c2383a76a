//! Entity types of the platform, their mathematical views, and the error
//! taxonomy shared by every operation.

use vstd::prelude::*;

verus! {

/// Failure kinds of the public operations. A failed operation leaves all
/// state unchanged.
#[derive(Clone, Copy, Debug, PartialEq, Eq, Structural)]
pub enum Error {
    /// A referenced entity is absent.
    NotFound,
    /// A creation would violate a uniqueness invariant.
    AlreadyExists,
    /// A role or ownership check failed.
    Unauthorized,
    /// A well-formed request violates a business rule.
    Validation,
}

/// The role a user was created with; immutable afterwards.
#[derive(Clone, Copy, Debug, PartialEq, Eq, Structural)]
pub enum UserRole {
    Student,
    Teacher,
}

#[derive(Debug)]
pub struct User {
    pub id: String,
    pub name: String,
    pub role: UserRole,
    pub bio: String,
    pub profile_photo: String,
    pub created_at: u64,
}

#[derive(Debug)]
pub struct Course {
    pub id: String,
    pub title: String,
    pub description: String,
    pub instructor_id: String,
    pub instructor_name: String,
    pub lessons: Vec<Lesson>,
    pub created_at: u64,
    pub updated_at: u64,
}

#[derive(Debug)]
pub struct Lesson {
    pub id: String,
    pub title: String,
    pub content: String,
    pub video_url: Option<String>,
    pub quiz_id: Option<String>,
    pub order: u32,
}

#[derive(Debug)]
pub struct Quiz {
    pub id: String,
    pub course_id: String,
    pub lesson_id: String,
    pub title: String,
    pub questions: Vec<Question>,
    pub passing_score: u32,
    pub created_at: u64,
}

#[derive(Debug)]
pub struct Question {
    pub id: String,
    pub question: String,
    pub options: Vec<String>,
    pub correct_answer: u32,
    pub points: u32,
}

#[derive(Debug)]
pub struct Enrollment {
    pub student_id: String,
    pub course_id: String,
    pub enrolled_at: u64,
    pub completed_lessons: Vec<String>,
    pub progress_percentage: u32,
    pub completed: bool,
    pub certificate_issued: bool,
}

#[derive(Debug)]
pub struct QuizAttempt {
    pub student_id: String,
    pub quiz_id: String,
    pub answers: Vec<u32>,
    pub score: u32,
    pub passed: bool,
    pub attempted_at: u64,
}

#[derive(Debug)]
pub struct Discussion {
    pub id: String,
    pub course_id: String,
    pub author_id: String,
    pub author_name: String,
    pub title: String,
    pub content: String,
    pub replies: Vec<Reply>,
    pub created_at: u64,
}

#[derive(Debug)]
pub struct Reply {
    pub id: String,
    pub author_id: String,
    pub author_name: String,
    pub content: String,
    pub created_at: u64,
}

#[derive(Debug)]
pub struct Certificate {
    pub student_id: String,
    pub course_id: String,
    pub course_title: String,
    pub student_name: String,
    pub instructor_name: String,
    pub issued_at: u64,
    pub certificate_hash: String,
}

// ---------------------------------------------------------------------------
// Views: the mathematical value of each entity, with strings as character
// sequences. All contracts are stated over these.
// ---------------------------------------------------------------------------

pub open spec fn opt_str_view(o: Option<String>) -> Option<Seq<char>> {
    match o {
        Some(s) => Some(s@),
        None => None,
    }
}

#[verifier::ext_equal]
pub struct UserV {
    pub id: Seq<char>,
    pub name: Seq<char>,
    pub role: UserRole,
    pub bio: Seq<char>,
    pub profile_photo: Seq<char>,
    pub created_at: u64,
}

#[verifier::ext_equal]
pub struct CourseV {
    pub id: Seq<char>,
    pub title: Seq<char>,
    pub description: Seq<char>,
    pub instructor_id: Seq<char>,
    pub instructor_name: Seq<char>,
    pub lessons: Seq<LessonV>,
    pub created_at: u64,
    pub updated_at: u64,
}

#[verifier::ext_equal]
pub struct LessonV {
    pub id: Seq<char>,
    pub title: Seq<char>,
    pub content: Seq<char>,
    pub video_url: Option<Seq<char>>,
    pub quiz_id: Option<Seq<char>>,
    pub order: u32,
}

#[verifier::ext_equal]
pub struct QuizV {
    pub id: Seq<char>,
    pub course_id: Seq<char>,
    pub lesson_id: Seq<char>,
    pub title: Seq<char>,
    pub questions: Seq<QuestionV>,
    pub passing_score: u32,
    pub created_at: u64,
}

#[verifier::ext_equal]
pub struct QuestionV {
    pub id: Seq<char>,
    pub question: Seq<char>,
    pub options: Seq<Seq<char>>,
    pub correct_answer: u32,
    pub points: u32,
}

#[verifier::ext_equal]
pub struct EnrollmentV {
    pub student_id: Seq<char>,
    pub course_id: Seq<char>,
    pub enrolled_at: u64,
    pub completed_lessons: Seq<Seq<char>>,
    pub progress_percentage: u32,
    pub completed: bool,
    pub certificate_issued: bool,
}

#[verifier::ext_equal]
pub struct QuizAttemptV {
    pub student_id: Seq<char>,
    pub quiz_id: Seq<char>,
    pub answers: Seq<u32>,
    pub score: u32,
    pub passed: bool,
    pub attempted_at: u64,
}

#[verifier::ext_equal]
pub struct DiscussionV {
    pub id: Seq<char>,
    pub course_id: Seq<char>,
    pub author_id: Seq<char>,
    pub author_name: Seq<char>,
    pub title: Seq<char>,
    pub content: Seq<char>,
    pub replies: Seq<ReplyV>,
    pub created_at: u64,
}

#[verifier::ext_equal]
pub struct ReplyV {
    pub id: Seq<char>,
    pub author_id: Seq<char>,
    pub author_name: Seq<char>,
    pub content: Seq<char>,
    pub created_at: u64,
}

#[verifier::ext_equal]
pub struct CertificateV {
    pub student_id: Seq<char>,
    pub course_id: Seq<char>,
    pub course_title: Seq<char>,
    pub student_name: Seq<char>,
    pub instructor_name: Seq<char>,
    pub issued_at: u64,
    pub certificate_hash: Seq<char>,
}

impl View for User {
    type V = UserV;

    open spec fn view(&self) -> UserV {
        UserV {
            id: self.id@,
            name: self.name@,
            role: self.role,
            bio: self.bio@,
            profile_photo: self.profile_photo@,
            created_at: self.created_at,
        }
    }
}

impl View for Lesson {
    type V = LessonV;

    open spec fn view(&self) -> LessonV {
        LessonV {
            id: self.id@,
            title: self.title@,
            content: self.content@,
            video_url: opt_str_view(self.video_url),
            quiz_id: opt_str_view(self.quiz_id),
            order: self.order,
        }
    }
}

impl View for Course {
    type V = CourseV;

    open spec fn view(&self) -> CourseV {
        CourseV {
            id: self.id@,
            title: self.title@,
            description: self.description@,
            instructor_id: self.instructor_id@,
            instructor_name: self.instructor_name@,
            lessons: lesson_views(self.lessons@),
            created_at: self.created_at,
            updated_at: self.updated_at,
        }
    }
}

impl View for Question {
    type V = QuestionV;

    open spec fn view(&self) -> QuestionV {
        QuestionV {
            id: self.id@,
            question: self.question@,
            options: self.options@.map_values(|s: String| s@),
            correct_answer: self.correct_answer,
            points: self.points,
        }
    }
}

impl View for Quiz {
    type V = QuizV;

    open spec fn view(&self) -> QuizV {
        QuizV {
            id: self.id@,
            course_id: self.course_id@,
            lesson_id: self.lesson_id@,
            title: self.title@,
            questions: question_views(self.questions@),
            passing_score: self.passing_score,
            created_at: self.created_at,
        }
    }
}

impl View for Enrollment {
    type V = EnrollmentV;

    open spec fn view(&self) -> EnrollmentV {
        EnrollmentV {
            student_id: self.student_id@,
            course_id: self.course_id@,
            enrolled_at: self.enrolled_at,
            completed_lessons: self.completed_lessons@.map_values(|s: String| s@),
            progress_percentage: self.progress_percentage,
            completed: self.completed,
            certificate_issued: self.certificate_issued,
        }
    }
}

impl View for QuizAttempt {
    type V = QuizAttemptV;

    open spec fn view(&self) -> QuizAttemptV {
        QuizAttemptV {
            student_id: self.student_id@,
            quiz_id: self.quiz_id@,
            answers: self.answers@,
            score: self.score,
            passed: self.passed,
            attempted_at: self.attempted_at,
        }
    }
}

impl View for Reply {
    type V = ReplyV;

    open spec fn view(&self) -> ReplyV {
        ReplyV {
            id: self.id@,
            author_id: self.author_id@,
            author_name: self.author_name@,
            content: self.content@,
            created_at: self.created_at,
        }
    }
}

impl View for Discussion {
    type V = DiscussionV;

    open spec fn view(&self) -> DiscussionV {
        DiscussionV {
            id: self.id@,
            course_id: self.course_id@,
            author_id: self.author_id@,
            author_name: self.author_name@,
            title: self.title@,
            content: self.content@,
            replies: reply_views(self.replies@),
            created_at: self.created_at,
        }
    }
}

impl View for Certificate {
    type V = CertificateV;

    open spec fn view(&self) -> CertificateV {
        CertificateV {
            student_id: self.student_id@,
            course_id: self.course_id@,
            course_title: self.course_title@,
            student_name: self.student_name@,
            instructor_name: self.instructor_name@,
            issued_at: self.issued_at,
            certificate_hash: self.certificate_hash@,
        }
    }
}

pub open spec fn user_views(s: Seq<User>) -> Seq<UserV> {
    s.map_values(|x: User| x@)
}

pub open spec fn lesson_views(s: Seq<Lesson>) -> Seq<LessonV> {
    s.map_values(|x: Lesson| x@)
}

pub open spec fn course_views(s: Seq<Course>) -> Seq<CourseV> {
    s.map_values(|x: Course| x@)
}

pub open spec fn question_views(s: Seq<Question>) -> Seq<QuestionV> {
    s.map_values(|x: Question| x@)
}

pub open spec fn quiz_views(s: Seq<Quiz>) -> Seq<QuizV> {
    s.map_values(|x: Quiz| x@)
}

pub open spec fn enrollment_views(s: Seq<Enrollment>) -> Seq<EnrollmentV> {
    s.map_values(|x: Enrollment| x@)
}

pub open spec fn attempt_views(s: Seq<QuizAttempt>) -> Seq<QuizAttemptV> {
    s.map_values(|x: QuizAttempt| x@)
}

pub open spec fn discussion_views(s: Seq<Discussion>) -> Seq<DiscussionV> {
    s.map_values(|x: Discussion| x@)
}

pub open spec fn reply_views(s: Seq<Reply>) -> Seq<ReplyV> {
    s.map_values(|x: Reply| x@)
}

pub open spec fn certificate_views(s: Seq<Certificate>) -> Seq<CertificateV> {
    s.map_values(|x: Certificate| x@)
}

// ---------------------------------------------------------------------------
// Clones. Each clone has the same view as the original.
// ---------------------------------------------------------------------------

fn clone_opt_string(o: &Option<String>) -> (r: Option<String>)
    ensures
        opt_str_view(r) == opt_str_view(*o),
{
    match o {
        Some(s) => Some(s.clone()),
        None => None,
    }
}

impl Clone for User {
    fn clone(&self) -> (r: Self)
        ensures
            r@ == self@,
    {
        User {
            id: self.id.clone(),
            name: self.name.clone(),
            role: self.role,
            bio: self.bio.clone(),
            profile_photo: self.profile_photo.clone(),
            created_at: self.created_at,
        }
    }
}

impl Clone for Lesson {
    fn clone(&self) -> (r: Self)
        ensures
            r@ == self@,
    {
        Lesson {
            id: self.id.clone(),
            title: self.title.clone(),
            content: self.content.clone(),
            video_url: clone_opt_string(&self.video_url),
            quiz_id: clone_opt_string(&self.quiz_id),
            order: self.order,
        }
    }
}

fn clone_lessons(v: &Vec<Lesson>) -> (r: Vec<Lesson>)
    ensures
        lesson_views(r@) == lesson_views(v@),
{
    let mut r: Vec<Lesson> = Vec::new();
    let mut i: usize = 0;
    while i < v.len()
        invariant
            i <= v.len(),
            r@.len() == i as int,
            forall|k: int| 0 <= k < i ==> #[trigger] r@[k]@ == v@[k]@,
        decreases v.len() - i,
    {
        r.push(v[i].clone());
        i = i + 1;
    }
    proof {
        assert(lesson_views(r@) =~= lesson_views(v@));
    }
    r
}

impl Clone for Course {
    fn clone(&self) -> (r: Self)
        ensures
            r@ == self@,
    {
        Course {
            id: self.id.clone(),
            title: self.title.clone(),
            description: self.description.clone(),
            instructor_id: self.instructor_id.clone(),
            instructor_name: self.instructor_name.clone(),
            lessons: clone_lessons(&self.lessons),
            created_at: self.created_at,
            updated_at: self.updated_at,
        }
    }
}

fn clone_strings(v: &Vec<String>) -> (r: Vec<String>)
    ensures
        r@.map_values(|s: String| s@) == v@.map_values(|s: String| s@),
        r@.len() == v@.len(),
{
    let mut r: Vec<String> = Vec::new();
    let mut i: usize = 0;
    while i < v.len()
        invariant
            i <= v.len(),
            r@.len() == i as int,
            forall|k: int| 0 <= k < i ==> #[trigger] r@[k]@ == v@[k]@,
        decreases v.len() - i,
    {
        r.push(v[i].clone());
        i = i + 1;
    }
    proof {
        assert(r@.map_values(|s: String| s@) =~= v@.map_values(|s: String| s@));
    }
    r
}

impl Clone for Question {
    fn clone(&self) -> (r: Self)
        ensures
            r@ == self@,
    {
        Question {
            id: self.id.clone(),
            question: self.question.clone(),
            options: clone_strings(&self.options),
            correct_answer: self.correct_answer,
            points: self.points,
        }
    }
}

fn clone_questions(v: &Vec<Question>) -> (r: Vec<Question>)
    ensures
        question_views(r@) == question_views(v@),
{
    let mut r: Vec<Question> = Vec::new();
    let mut i: usize = 0;
    while i < v.len()
        invariant
            i <= v.len(),
            r@.len() == i as int,
            forall|k: int| 0 <= k < i ==> #[trigger] r@[k]@ == v@[k]@,
        decreases v.len() - i,
    {
        r.push(v[i].clone());
        i = i + 1;
    }
    proof {
        assert(question_views(r@) =~= question_views(v@));
    }
    r
}

impl Clone for Quiz {
    fn clone(&self) -> (r: Self)
        ensures
            r@ == self@,
    {
        Quiz {
            id: self.id.clone(),
            course_id: self.course_id.clone(),
            lesson_id: self.lesson_id.clone(),
            title: self.title.clone(),
            questions: clone_questions(&self.questions),
            passing_score: self.passing_score,
            created_at: self.created_at,
        }
    }
}

impl Clone for Enrollment {
    fn clone(&self) -> (r: Self)
        ensures
            r@ == self@,
    {
        Enrollment {
            student_id: self.student_id.clone(),
            course_id: self.course_id.clone(),
            enrolled_at: self.enrolled_at,
            completed_lessons: clone_strings(&self.completed_lessons),
            progress_percentage: self.progress_percentage,
            completed: self.completed,
            certificate_issued: self.certificate_issued,
        }
    }
}

fn clone_answers(v: &Vec<u32>) -> (r: Vec<u32>)
    ensures
        r@ == v@,
{
    let mut r: Vec<u32> = Vec::new();
    let mut i: usize = 0;
    while i < v.len()
        invariant
            i <= v.len(),
            r@ == v@.take(i as int),
        decreases v.len() - i,
    {
        r.push(v[i]);
        proof {
            assert(r@ =~= v@.take(i + 1 as int));
        }
        i = i + 1;
    }
    proof {
        assert(v@.take(v@.len() as int) =~= v@);
    }
    r
}

impl Clone for QuizAttempt {
    fn clone(&self) -> (r: Self)
        ensures
            r@ == self@,
    {
        QuizAttempt {
            student_id: self.student_id.clone(),
            quiz_id: self.quiz_id.clone(),
            answers: clone_answers(&self.answers),
            score: self.score,
            passed: self.passed,
            attempted_at: self.attempted_at,
        }
    }
}

impl Clone for Reply {
    fn clone(&self) -> (r: Self)
        ensures
            r@ == self@,
    {
        Reply {
            id: self.id.clone(),
            author_id: self.author_id.clone(),
            author_name: self.author_name.clone(),
            content: self.content.clone(),
            created_at: self.created_at,
        }
    }
}

fn clone_replies(v: &Vec<Reply>) -> (r: Vec<Reply>)
    ensures
        reply_views(r@) == reply_views(v@),
{
    let mut r: Vec<Reply> = Vec::new();
    let mut i: usize = 0;
    while i < v.len()
        invariant
            i <= v.len(),
            r@.len() == i as int,
            forall|k: int| 0 <= k < i ==> #[trigger] r@[k]@ == v@[k]@,
        decreases v.len() - i,
    {
        r.push(v[i].clone());
        i = i + 1;
    }
    proof {
        assert(reply_views(r@) =~= reply_views(v@));
    }
    r
}

impl Clone for Discussion {
    fn clone(&self) -> (r: Self)
        ensures
            r@ == self@,
    {
        Discussion {
            id: self.id.clone(),
            course_id: self.course_id.clone(),
            author_id: self.author_id.clone(),
            author_name: self.author_name.clone(),
            title: self.title.clone(),
            content: self.content.clone(),
            replies: clone_replies(&self.replies),
            created_at: self.created_at,
        }
    }
}

impl Clone for Certificate {
    fn clone(&self) -> (r: Self)
        ensures
            r@ == self@,
    {
        Certificate {
            student_id: self.student_id.clone(),
            course_id: self.course_id.clone(),
            course_title: self.course_title.clone(),
            student_name: self.student_name.clone(),
            instructor_name: self.instructor_name.clone(),
            issued_at: self.issued_at,
            certificate_hash: self.certificate_hash.clone(),
        }
    }
}

} // verus!
