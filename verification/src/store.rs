//! The relational state store: five identity-keyed tables, two append-only
//! logs, the well-formedness invariant that ties them together, and the
//! public operations with their authorization guards.

use crate::ids::{
    dec_rep, from_counter_below, lemma_counter_below_widen, lemma_counter_id_fresh, u64_to_dec,
};
use crate::hashing::{hex_of, sha256_of};
use crate::text::{contains_seq, lower_of, str_contains, to_lowercase};
use vstd::string::StringExecFns;
use crate::types::{opt_str_view, 
    attempt_views, certificate_views, course_views, discussion_views, enrollment_views,
    lesson_views, question_views, quiz_views, reply_views, user_views, Certificate, CertificateV,
    Course, CourseV, Discussion, DiscussionV, Enrollment, EnrollmentV, Error, Lesson, LessonV,
    Question, QuestionV, Quiz, QuizAttempt, QuizAttemptV, QuizV, Reply, ReplyV, User, UserRole,
    UserV,
};
use vstd::prelude::*;

verus! {

/// All platform state. Created empty at process start; every public
/// operation resolves the caller, runs its authorization guard, and then
/// reads or mutates these tables, whole-call atomically.
pub struct Store {
    users: Vec<User>,
    courses: Vec<Course>,
    quizzes: Vec<Quiz>,
    enrollments: Vec<Enrollment>,
    quiz_attempts: Vec<QuizAttempt>,
    discussions: Vec<Discussion>,
    certificates: Vec<Certificate>,
    next_id: u64,
}

/// The mathematical value of a store.
#[verifier::ext_equal]
pub struct StoreV {
    pub users: Seq<UserV>,
    pub courses: Seq<CourseV>,
    pub quizzes: Seq<QuizV>,
    pub enrollments: Seq<EnrollmentV>,
    pub quiz_attempts: Seq<QuizAttemptV>,
    pub discussions: Seq<DiscussionV>,
    pub certificates: Seq<CertificateV>,
    pub next_id: u64,
}

impl View for Store {
    type V = StoreV;

    closed spec fn view(&self) -> StoreV {
        StoreV {
            users: user_views(self.users@),
            courses: course_views(self.courses@),
            quizzes: quiz_views(self.quizzes@),
            enrollments: enrollment_views(self.enrollments@),
            quiz_attempts: attempt_views(self.quiz_attempts@),
            discussions: discussion_views(self.discussions@),
            certificates: certificate_views(self.certificates@),
            next_id: self.next_id,
        }
    }
}

// ---------------------------------------------------------------------------
// Lookups over single tables.
// ---------------------------------------------------------------------------

pub open spec fn has_user_in(users: Seq<UserV>, id: Seq<char>) -> bool {
    exists|i: int| 0 <= i < users.len() && users[i].id == id
}

pub open spec fn user_index_in(users: Seq<UserV>, id: Seq<char>) -> int {
    choose|i: int| 0 <= i < users.len() && users[i].id == id
}

/// There is a user with this id and the Teacher role.
pub open spec fn is_teacher_in(users: Seq<UserV>, id: Seq<char>) -> bool {
    exists|i: int| 0 <= i < users.len() && users[i].id == id && users[i].role == UserRole::Teacher
}

/// There is a user with this id and the Student role.
pub open spec fn is_student_in(users: Seq<UserV>, id: Seq<char>) -> bool {
    exists|i: int| 0 <= i < users.len() && users[i].id == id && users[i].role == UserRole::Student
}

pub open spec fn has_course_in(courses: Seq<CourseV>, id: Seq<char>) -> bool {
    exists|i: int| 0 <= i < courses.len() && courses[i].id == id
}

pub open spec fn course_index_in(courses: Seq<CourseV>, id: Seq<char>) -> int {
    choose|i: int| 0 <= i < courses.len() && courses[i].id == id
}

pub open spec fn has_quiz_in(quizzes: Seq<QuizV>, id: Seq<char>) -> bool {
    exists|i: int| 0 <= i < quizzes.len() && quizzes[i].id == id
}

pub open spec fn quiz_index_in(quizzes: Seq<QuizV>, id: Seq<char>) -> int {
    choose|i: int| 0 <= i < quizzes.len() && quizzes[i].id == id
}

/// There is a quiz with id `qid` attached to the lesson `lid`.
pub open spec fn quiz_for_lesson_in(quizzes: Seq<QuizV>, qid: Seq<char>, lid: Seq<char>) -> bool {
    exists|i: int| 0 <= i < quizzes.len() && quizzes[i].id == qid && quizzes[i].lesson_id == lid
}

pub open spec fn has_enrollment_in(
    enrollments: Seq<EnrollmentV>,
    student: Seq<char>,
    course: Seq<char>,
) -> bool {
    exists|i: int|
        0 <= i < enrollments.len() && enrollments[i].student_id == student
            && enrollments[i].course_id == course
}

pub open spec fn enrollment_index_in(
    enrollments: Seq<EnrollmentV>,
    student: Seq<char>,
    course: Seq<char>,
) -> int {
    choose|i: int|
        0 <= i < enrollments.len() && enrollments[i].student_id == student
            && enrollments[i].course_id == course
}

/// There is an enrollment for (student, course) whose certificate flag is set.
pub open spec fn enrollment_flagged_in(
    enrollments: Seq<EnrollmentV>,
    student: Seq<char>,
    course: Seq<char>,
) -> bool {
    exists|i: int|
        0 <= i < enrollments.len() && enrollments[i].student_id == student
            && enrollments[i].course_id == course && enrollments[i].certificate_issued
}

pub open spec fn has_discussion_in(discussions: Seq<DiscussionV>, id: Seq<char>) -> bool {
    exists|i: int| 0 <= i < discussions.len() && discussions[i].id == id
}

pub open spec fn discussion_index_in(discussions: Seq<DiscussionV>, id: Seq<char>) -> int {
    choose|i: int| 0 <= i < discussions.len() && discussions[i].id == id
}

pub open spec fn cert_exists_in(
    certs: Seq<CertificateV>,
    student: Seq<char>,
    course: Seq<char>,
) -> bool {
    exists|i: int|
        0 <= i < certs.len() && certs[i].student_id == student && certs[i].course_id == course
}

/// Whether some lesson in the list has the given id.
pub open spec fn lesson_in(lessons: Seq<LessonV>, lesson_id: Seq<char>) -> bool {
    exists|i: int| 0 <= i < lessons.len() && lessons[i].id == lesson_id
}

/// Whether the course has a lesson with the given id.
pub open spec fn course_has_lesson(c: CourseV, lesson_id: Seq<char>) -> bool {
    lesson_in(c.lessons, lesson_id)
}

/// There is a course with id `cid` that has every lesson in `completed`.
pub open spec fn course_covers(
    courses: Seq<CourseV>,
    cid: Seq<char>,
    completed: Seq<Seq<char>>,
) -> bool {
    exists|i: int|
        0 <= i < courses.len() && courses[i].id == cid && (forall|j: int|
            0 <= j < completed.len() ==> course_has_lesson(courses[i], #[trigger] completed[j]))
}

/// Lessons are kept sorted by their `order` field.
pub open spec fn lessons_sorted(lessons: Seq<LessonV>) -> bool {
    forall|i: int, j: int| 0 <= i <= j < lessons.len() ==> lessons[i].order <= lessons[j].order
}

// ---------------------------------------------------------------------------
// Scoring.
// ---------------------------------------------------------------------------

/// The sum of the points of the first `n` questions.
pub open spec fn points_upto(qs: Seq<QuestionV>, n: int) -> int
    decreases n,
{
    if n <= 0 {
        0
    } else {
        points_upto(qs, n - 1) + qs[n - 1].points
    }
}

/// The score of `ans` against the first `n` questions: the points of every
/// question whose correct answer index is submitted at the same position.
pub open spec fn score_upto(qs: Seq<QuestionV>, ans: Seq<u32>, n: int) -> int
    decreases n,
{
    if n <= 0 {
        0
    } else {
        score_upto(qs, ans, n - 1) + if ans[n - 1] == qs[n - 1].correct_answer {
            qs[n - 1].points as int
        } else {
            0
        }
    }
}

/// The total points of a quiz's question set.
pub open spec fn total_points(qs: Seq<QuestionV>) -> int {
    points_upto(qs, qs.len() as int)
}

/// The score of a full answer sheet.
pub open spec fn quiz_score(qs: Seq<QuestionV>, ans: Seq<u32>) -> int {
    score_upto(qs, ans, qs.len() as int)
}

pub proof fn lemma_score_bounds(qs: Seq<QuestionV>, ans: Seq<u32>, n: int)
    ensures
        0 <= score_upto(qs, ans, n) <= points_upto(qs, n),
    decreases n,
{
    if n > 0 {
        lemma_score_bounds(qs, ans, n - 1);
    }
}

// ---------------------------------------------------------------------------
// Well-formedness.
// ---------------------------------------------------------------------------

/// Per-course invariants: a counter-issued id, a Teacher instructor, lessons
/// sorted by `order` with unique counter-issued ids, and every attached quiz
/// pointing back at its lesson.
pub open spec fn course_ok(c: CourseV, users: Seq<UserV>, quizzes: Seq<QuizV>, bound: nat) -> bool {
    &&& from_counter_below(c.id, bound)
    &&& is_teacher_in(users, c.instructor_id)
    &&& lessons_sorted(c.lessons)
    &&& forall|i: int, j: int| 0 <= i < j < c.lessons.len() ==> c.lessons[i].id != c.lessons[j].id
    &&& forall|i: int|
        0 <= i < c.lessons.len() ==> from_counter_below(#[trigger] c.lessons[i].id, bound)
    &&& forall|i: int|
        0 <= i < c.lessons.len() ==> (#[trigger] c.lessons[i].quiz_id matches Some(qid)
            ==> quiz_for_lesson_in(quizzes, qid, c.lessons[i].id))
}

/// Per-quiz invariants: a counter-issued id, an existing course, and a point
/// total that the attempt score (a `u32`) can represent.
pub open spec fn quiz_ok(q: QuizV, courses: Seq<CourseV>, bound: nat) -> bool {
    &&& from_counter_below(q.id, bound)
    &&& has_course_in(courses, q.course_id)
    &&& total_points(q.questions) <= u32::MAX
}

/// Per-enrollment invariants: an enrolled Student, progress within [0, 100]
/// with `completed` exactly at 100, completed lessons that are distinct
/// lessons of the (existing) course, and a certificate record whenever the
/// flag is set.
pub open spec fn enrollment_ok(
    e: EnrollmentV,
    users: Seq<UserV>,
    courses: Seq<CourseV>,
    certs: Seq<CertificateV>,
) -> bool {
    &&& is_student_in(users, e.student_id)
    &&& e.progress_percentage <= 100
    &&& (e.completed <==> e.progress_percentage == 100)
    &&& e.completed_lessons.no_duplicates()
    &&& course_covers(courses, e.course_id, e.completed_lessons)
    &&& (e.certificate_issued ==> cert_exists_in(certs, e.student_id, e.course_id))
}

/// Per-discussion invariants: a counter-issued id, an existing course and
/// author, and replies with unique counter-issued ids.
pub open spec fn discussion_ok(
    d: DiscussionV,
    users: Seq<UserV>,
    courses: Seq<CourseV>,
    bound: nat,
) -> bool {
    &&& from_counter_below(d.id, bound)
    &&& has_course_in(courses, d.course_id)
    &&& has_user_in(users, d.author_id)
    &&& forall|i: int, j: int| 0 <= i < j < d.replies.len() ==> d.replies[i].id != d.replies[j].id
    &&& forall|i: int|
        0 <= i < d.replies.len() ==> from_counter_below(#[trigger] d.replies[i].id, bound)
}

impl StoreV {
    pub open spec fn has_user(self, id: Seq<char>) -> bool {
        has_user_in(self.users, id)
    }

    /// The user record with the given id (meaningful when `has_user`).
    pub open spec fn user_named(self, id: Seq<char>) -> UserV {
        self.users[user_index_in(self.users, id)]
    }

    pub open spec fn has_course(self, id: Seq<char>) -> bool {
        has_course_in(self.courses, id)
    }

    /// The course with the given id (meaningful when `has_course`).
    pub open spec fn course_named(self, id: Seq<char>) -> CourseV {
        self.courses[course_index_in(self.courses, id)]
    }

    pub open spec fn has_quiz(self, id: Seq<char>) -> bool {
        has_quiz_in(self.quizzes, id)
    }

    /// The quiz with the given id (meaningful when `has_quiz`).
    pub open spec fn quiz_named(self, id: Seq<char>) -> QuizV {
        self.quizzes[quiz_index_in(self.quizzes, id)]
    }

    pub open spec fn has_enrollment(self, student: Seq<char>, course: Seq<char>) -> bool {
        has_enrollment_in(self.enrollments, student, course)
    }

    /// The enrollment keyed by (student, course) (meaningful when
    /// `has_enrollment`).
    pub open spec fn enrollment_named(self, student: Seq<char>, course: Seq<char>) -> EnrollmentV {
        self.enrollments[enrollment_index_in(self.enrollments, student, course)]
    }

    pub open spec fn has_discussion(self, id: Seq<char>) -> bool {
        has_discussion_in(self.discussions, id)
    }

    /// The discussion with the given id (meaningful when `has_discussion`).
    pub open spec fn discussion_named(self, id: Seq<char>) -> DiscussionV {
        self.discussions[discussion_index_in(self.discussions, id)]
    }

    /// Whether a certificate was ever issued for (student, course).
    pub open spec fn has_certificate_for(self, student: Seq<char>, course: Seq<char>) -> bool {
        cert_exists_in(self.certificates, student, course)
    }

    /// User ids are unique: one record per caller identity.
    pub open spec fn users_ok(self) -> bool {
        forall|i: int, j: int|
            0 <= i < j < self.users.len() ==> self.users[i].id != self.users[j].id
    }

    pub open spec fn courses_ok(self) -> bool {
        &&& forall|i: int, j: int|
            0 <= i < j < self.courses.len() ==> self.courses[i].id != self.courses[j].id
        &&& forall|i: int|
            0 <= i < self.courses.len() ==> course_ok(
                #[trigger] self.courses[i],
                self.users,
                self.quizzes,
                self.next_id as nat,
            )
    }

    pub open spec fn quizzes_ok(self) -> bool {
        &&& forall|i: int, j: int|
            0 <= i < j < self.quizzes.len() ==> self.quizzes[i].id != self.quizzes[j].id
        &&& forall|i: int|
            0 <= i < self.quizzes.len() ==> quiz_ok(
                #[trigger] self.quizzes[i],
                self.courses,
                self.next_id as nat,
            )
    }

    pub open spec fn enrollments_ok(self) -> bool {
        &&& forall|i: int, j: int|
            0 <= i < j < self.enrollments.len() ==> !(self.enrollments[i].student_id
                == self.enrollments[j].student_id && self.enrollments[i].course_id
                == self.enrollments[j].course_id)
        &&& forall|i: int|
            0 <= i < self.enrollments.len() ==> enrollment_ok(
                #[trigger] self.enrollments[i],
                self.users,
                self.courses,
                self.certificates,
            )
    }

    pub open spec fn discussions_ok(self) -> bool {
        &&& forall|i: int, j: int|
            0 <= i < j < self.discussions.len() ==> self.discussions[i].id
                != self.discussions[j].id
        &&& forall|i: int|
            0 <= i < self.discussions.len() ==> discussion_ok(
                #[trigger] self.discussions[i],
                self.users,
                self.courses,
                self.next_id as nat,
            )
    }

    /// Certificates: at most one per (student, course), each backed by an
    /// enrollment whose `certificate_issued` flag is set.
    pub open spec fn certificates_ok(self) -> bool {
        &&& forall|i: int, j: int|
            0 <= i < j < self.certificates.len() ==> !(self.certificates[i].student_id
                == self.certificates[j].student_id && self.certificates[i].course_id
                == self.certificates[j].course_id)
        &&& forall|i: int|
            0 <= i < self.certificates.len() ==> enrollment_flagged_in(
                self.enrollments,
                (#[trigger] self.certificates[i]).student_id,
                self.certificates[i].course_id,
            )
    }

    /// Well-formedness of the whole store: every cross-entity invariant the
    /// operations rely on and preserve.
    pub open spec fn wf(self) -> bool {
        &&& self.users_ok()
        &&& self.courses_ok()
        &&& self.quizzes_ok()
        &&& self.enrollments_ok()
        &&& self.discussions_ok()
        &&& self.certificates_ok()
    }
}

// ---------------------------------------------------------------------------
// Exec lookups.
// ---------------------------------------------------------------------------

impl Store {
    fn find_user(&self, id: &String) -> (r: Option<usize>)
        ensures
            match r {
                Some(i) => i < self@.users.len() && self@.users[i as int].id == id@,
                None => !self@.has_user(id@),
            },
    {
        let mut i: usize = 0;
        while i < self.users.len()
            invariant
                i <= self.users.len(),
                forall|j: int| 0 <= j < i ==> self@.users[j].id != id@,
            decreases self.users.len() - i,
        {
            if self.users[i].id == *id {
                return Some(i);
            }
            i = i + 1;
        }
        None
    }

    fn find_course(&self, id: &String) -> (r: Option<usize>)
        ensures
            match r {
                Some(i) => i < self@.courses.len() && self@.courses[i as int].id == id@,
                None => !self@.has_course(id@),
            },
    {
        let mut i: usize = 0;
        while i < self.courses.len()
            invariant
                i <= self.courses.len(),
                forall|j: int| 0 <= j < i ==> self@.courses[j].id != id@,
            decreases self.courses.len() - i,
        {
            if self.courses[i].id == *id {
                return Some(i);
            }
            i = i + 1;
        }
        None
    }

    fn find_quiz(&self, id: &String) -> (r: Option<usize>)
        ensures
            match r {
                Some(i) => i < self@.quizzes.len() && self@.quizzes[i as int].id == id@,
                None => !self@.has_quiz(id@),
            },
    {
        let mut i: usize = 0;
        while i < self.quizzes.len()
            invariant
                i <= self.quizzes.len(),
                forall|j: int| 0 <= j < i ==> self@.quizzes[j].id != id@,
            decreases self.quizzes.len() - i,
        {
            if self.quizzes[i].id == *id {
                return Some(i);
            }
            i = i + 1;
        }
        None
    }

    fn find_enrollment(&self, student: &String, course: &String) -> (r: Option<usize>)
        ensures
            match r {
                Some(i) => i < self@.enrollments.len() && self@.enrollments[i as int].student_id
                    == student@ && self@.enrollments[i as int].course_id == course@,
                None => !self@.has_enrollment(student@, course@),
            },
    {
        let mut i: usize = 0;
        while i < self.enrollments.len()
            invariant
                i <= self.enrollments.len(),
                forall|j: int|
                    0 <= j < i ==> !(self@.enrollments[j].student_id == student@
                        && self@.enrollments[j].course_id == course@),
            decreases self.enrollments.len() - i,
        {
            if self.enrollments[i].student_id == *student && self.enrollments[i].course_id
                == *course {
                return Some(i);
            }
            i = i + 1;
        }
        None
    }

    fn find_discussion(&self, id: &String) -> (r: Option<usize>)
        ensures
            match r {
                Some(i) => i < self@.discussions.len() && self@.discussions[i as int].id == id@,
                None => !self@.has_discussion(id@),
            },
    {
        let mut i: usize = 0;
        while i < self.discussions.len()
            invariant
                i <= self.discussions.len(),
                forall|j: int| 0 <= j < i ==> self@.discussions[j].id != id@,
            decreases self.discussions.len() - i,
        {
            if self.discussions[i].id == *id {
                return Some(i);
            }
            i = i + 1;
        }
        None
    }

    fn lesson_slot_index(lessons: &Vec<Lesson>, order: u32) -> (k: usize)
        ensures
            lesson_slot(lesson_views(lessons@), order, k as int),
    {
        let mut k: usize = 0;
        while k < lessons.len() && lessons[k].order <= order
            invariant
                k <= lessons@.len(),
                forall|j: int| 0 <= j < k ==> lesson_views(lessons@)[j].order <= order,
            decreases lessons@.len() - k,
        {
            proof {
                assert(lesson_views(lessons@)[k as int].order == lessons@[k as int]@.order);
            }
            k = k + 1;
        }
        k
    }

    fn find_lesson(lessons: &Vec<Lesson>, id: &String) -> (r: Option<usize>)
        ensures
            match r {
                Some(i) => i < lessons@.len() && lessons@[i as int]@.id == id@,
                None => !lesson_in(lesson_views(lessons@), id@),
            },
    {
        let mut i: usize = 0;
        while i < lessons.len()
            invariant
                i <= lessons@.len(),
                forall|j: int| 0 <= j < i ==> lesson_views(lessons@)[j].id != id@,
            decreases lessons@.len() - i,
        {
            if lessons[i].id == *id {
                return Some(i);
            }
            proof {
                assert(lesson_views(lessons@)[i as int].id == lessons@[i as int]@.id);
            }
            i = i + 1;
        }
        None
    }

    fn contains_string(v: &Vec<String>, x: &String) -> (r: bool)
        ensures
            r == v@.map_values(|s: String| s@).contains(x@),
    {
        let mut i: usize = 0;
        while i < v.len()
            invariant
                i <= v@.len(),
                forall|j: int| 0 <= j < i ==> v@[j]@ != x@,
            decreases v@.len() - i,
        {
            if v[i] == *x {
                proof {
                    assert(v@.map_values(|s: String| s@)[i as int] == x@);
                }
                return true;
            }
            proof {
                assert(v@.map_values(|s: String| s@)[i as int] == v@[i as int]@);
            }
            i = i + 1;
        }
        proof {
            let m = v@.map_values(|s: String| s@);
            if m.contains(x@) {
                let w = choose|w: int| 0 <= w < m.len() && m[w] == x@;
                assert(m[w] == v@[w]@);
                assert(false);
            }
        }
        false
    }
}

// ---------------------------------------------------------------------------
// Operations: user management.
// ---------------------------------------------------------------------------

impl Store {
    /// An empty store, as at process start.
    pub fn new() -> (r: Store)
        ensures
            r@ == (StoreV {
                users: Seq::<UserV>::empty(),
                courses: Seq::<CourseV>::empty(),
                quizzes: Seq::<QuizV>::empty(),
                enrollments: Seq::<EnrollmentV>::empty(),
                quiz_attempts: Seq::<QuizAttemptV>::empty(),
                discussions: Seq::<DiscussionV>::empty(),
                certificates: Seq::<CertificateV>::empty(),
                next_id: 0,
            }),
            r@.wf(),
    {
        let r = Store {
            users: Vec::new(),
            courses: Vec::new(),
            quizzes: Vec::new(),
            enrollments: Vec::new(),
            quiz_attempts: Vec::new(),
            discussions: Vec::new(),
            certificates: Vec::new(),
            next_id: 0,
        };
        proof {
            assert(r@ =~= (StoreV {
                users: Seq::<UserV>::empty(),
                courses: Seq::<CourseV>::empty(),
                quizzes: Seq::<QuizV>::empty(),
                enrollments: Seq::<EnrollmentV>::empty(),
                quiz_attempts: Seq::<QuizAttemptV>::empty(),
                discussions: Seq::<DiscussionV>::empty(),
                certificates: Seq::<CertificateV>::empty(),
                next_id: 0,
            }));
        }
        r
    }

    /// Whether the id counter is spent. Operations that generate an
    /// identifier require that it is not.
    pub fn ids_exhausted(&self) -> (r: bool)
        ensures
            r == (self@.next_id == u64::MAX),
    {
        self.next_id == u64::MAX
    }

    /// Creates the caller's user record. Fails `AlreadyExists`, leaving the
    /// existing record untouched, when the caller identity already owns one.
    pub fn create_user(
        &mut self,
        caller: String,
        name: String,
        role: UserRole,
        bio: String,
        profile_photo: String,
        now: u64,
    ) -> (r: Result<User, Error>)
        requires
            old(self)@.wf(),
        ensures
            final (self)@.wf(),
            match r {
                Ok(u) => !old(self)@.has_user(caller@) && u@ == (UserV {
                    id: caller@,
                    name: name@,
                    role: role,
                    bio: bio@,
                    profile_photo: profile_photo@,
                    created_at: now,
                }) && final (self)@ == (StoreV { users: old(self)@.users.push(u@), ..old(self)@ }),
                Err(e) => e == Error::AlreadyExists && old(self)@.has_user(caller@) && final (self)@
                    == old(self)@,
            },
    {
        if self.find_user(&caller).is_some() {
            return Err(Error::AlreadyExists);
        }
        let user = User { id: caller, name, role, bio, profile_photo, created_at: now };
        let ret = user.clone();
        let ghost pre = self@;
        self.users.push(user);
        proof {
            assert(self@.users =~= pre.users.push(ret@));
            assert(self@ =~= (StoreV { users: pre.users.push(ret@), ..pre }));
            let post = self@;
            assert forall|i: int, j: int| 0 <= i < j < post.users.len() implies post.users[i].id
                != post.users[j].id by {
                if j < pre.users.len() {
                    assert(pre.users[i].id != pre.users[j].id);
                } else {
                    assert(post.users[j] == ret@);
                    assert(pre.users[i].id != ret@.id);
                }
            }
            assert(post.courses_ok()) by {
                assert forall|i: int| 0 <= i < post.courses.len() implies course_ok(
                    #[trigger] post.courses[i],
                    post.users,
                    post.quizzes,
                    post.next_id as nat,
                ) by {
                    assert(course_ok(pre.courses[i], pre.users, pre.quizzes, pre.next_id as nat));
                    let k = choose|k: int|
                        0 <= k < pre.users.len() && pre.users[k].id == pre.courses[i].instructor_id
                            && pre.users[k].role == UserRole::Teacher;
                    assert(post.users[k] == pre.users[k]);
                }
            }
            assert(post.enrollments_ok()) by {
                assert forall|i: int| 0 <= i < post.enrollments.len() implies enrollment_ok(
                    #[trigger] post.enrollments[i],
                    post.users,
                    post.courses,
                    post.certificates,
                ) by {
                    assert(enrollment_ok(
                        pre.enrollments[i],
                        pre.users,
                        pre.courses,
                        pre.certificates,
                    ));
                    let k = choose|k: int|
                        0 <= k < pre.users.len() && pre.users[k].id
                            == pre.enrollments[i].student_id && pre.users[k].role
                            == UserRole::Student;
                    assert(post.users[k] == pre.users[k]);
                }
            }
            assert(post.discussions_ok()) by {
                assert forall|i: int| 0 <= i < post.discussions.len() implies discussion_ok(
                    #[trigger] post.discussions[i],
                    post.users,
                    post.courses,
                    post.next_id as nat,
                ) by {
                    assert(discussion_ok(
                        pre.discussions[i],
                        pre.users,
                        pre.courses,
                        pre.next_id as nat,
                    ));
                    let k = choose|k: int|
                        0 <= k < pre.users.len() && pre.users[k].id
                            == pre.discussions[i].author_id;
                    assert(post.users[k] == pre.users[k]);
                }
            }
        }
        Ok(ret)
    }

    /// The caller's user record, if one exists.
    pub fn get_user(&self, caller: String) -> (r: Option<User>)
        requires
            self@.wf(),
        ensures
            match r {
                Some(u) => self@.has_user(caller@) && u@ == self@.user_named(caller@),
                None => !self@.has_user(caller@),
            },
    {
        match self.find_user(&caller) {
            Some(i) => {
                let u = self.users[i].clone();
                proof {
                    assert(self@.users[i as int].id == caller@);
                    assert(self@.has_user(caller@));
                    let j = user_index_in(self@.users, caller@);
                    assert(0 <= j < self@.users.len() && self@.users[j].id == caller@);
                    if i as int != j {
                        assert(false);
                    }
                }
                Some(u)
            },
            None => None,
        }
    }

    /// Updates the caller's profile fields. The role and creation time are
    /// immutable. Fails `NotFound` when the caller has no record.
    pub fn update_user_profile(
        &mut self,
        caller: String,
        name: String,
        bio: String,
        profile_photo: String,
    ) -> (r: Result<User, Error>)
        requires
            old(self)@.wf(),
        ensures
            final (self)@.wf(),
            match r {
                Ok(u) => old(self)@.has_user(caller@) && u@ == (UserV {
                    name: name@,
                    bio: bio@,
                    profile_photo: profile_photo@,
                    ..old(self)@.user_named(caller@)
                }) && final (self)@ == (StoreV {
                    users: old(self)@.users.update(user_index_in(old(self)@.users, caller@), u@),
                    ..old(self)@
                }),
                Err(e) => e == Error::NotFound && !old(self)@.has_user(caller@) && final (self)@
                    == old(self)@,
            },
    {
        let at = match self.find_user(&caller) {
            Some(i) => i,
            None => {
                return Err(Error::NotFound);
            },
        };
        let ghost pre = self@;
        let updated = User {
            id: self.users[at].id.clone(),
            name,
            role: self.users[at].role,
            bio,
            profile_photo,
            created_at: self.users[at].created_at,
        };
        let ret = updated.clone();
        self.users[at] = updated;
        proof {
            let ai = at as int;
            assert(pre.users[ai].id == caller@);
            assert(pre.has_user(caller@));
            let j = user_index_in(pre.users, caller@);
            assert(0 <= j < pre.users.len() && pre.users[j].id == caller@);
            if j != ai {
                assert(false);
            }
            assert(ret@ == (UserV {
                name: name@,
                bio: bio@,
                profile_photo: profile_photo@,
                ..pre.user_named(caller@)
            }));
            assert(self@.users =~= pre.users.update(ai, ret@));
            assert(self@ =~= (StoreV { users: pre.users.update(j, ret@), ..pre }));
            let post = self@;
            assert forall|i: int, k: int| 0 <= i < k < post.users.len() implies post.users[i].id
                != post.users[k].id by {
                assert(pre.users[i].id != pre.users[k].id);
                assert(post.users[i].id == pre.users[i].id);
                assert(post.users[k].id == pre.users[k].id);
            }
            assert(post.courses_ok()) by {
                assert forall|i: int| 0 <= i < post.courses.len() implies course_ok(
                    #[trigger] post.courses[i],
                    post.users,
                    post.quizzes,
                    post.next_id as nat,
                ) by {
                    assert(course_ok(pre.courses[i], pre.users, pre.quizzes, pre.next_id as nat));
                    let k = choose|k: int|
                        0 <= k < pre.users.len() && pre.users[k].id == pre.courses[i].instructor_id
                            && pre.users[k].role == UserRole::Teacher;
                    assert(post.users[k].id == pre.users[k].id && post.users[k].role
                        == pre.users[k].role);
                }
            }
            assert(post.enrollments_ok()) by {
                assert forall|i: int| 0 <= i < post.enrollments.len() implies enrollment_ok(
                    #[trigger] post.enrollments[i],
                    post.users,
                    post.courses,
                    post.certificates,
                ) by {
                    assert(enrollment_ok(
                        pre.enrollments[i],
                        pre.users,
                        pre.courses,
                        pre.certificates,
                    ));
                    let k = choose|k: int|
                        0 <= k < pre.users.len() && pre.users[k].id
                            == pre.enrollments[i].student_id && pre.users[k].role
                            == UserRole::Student;
                    assert(post.users[k].id == pre.users[k].id && post.users[k].role
                        == pre.users[k].role);
                }
            }
            assert(post.discussions_ok()) by {
                assert forall|i: int| 0 <= i < post.discussions.len() implies discussion_ok(
                    #[trigger] post.discussions[i],
                    post.users,
                    post.courses,
                    post.next_id as nat,
                ) by {
                    assert(discussion_ok(
                        pre.discussions[i],
                        pre.users,
                        pre.courses,
                        pre.next_id as nat,
                    ));
                    let k = choose|k: int|
                        0 <= k < pre.users.len() && pre.users[k].id
                            == pre.discussions[i].author_id;
                    assert(post.users[k].id == pre.users[k].id);
                }
            }
        }
        Ok(ret)
    }
}

// ---------------------------------------------------------------------------
// Selection of table rows, used by the query operations.
// ---------------------------------------------------------------------------

/// Whether a course matches a (lower-case) search query: the folded title or
/// description contains it.
pub open spec fn course_matches(c: CourseV, q: Seq<char>) -> bool {
    contains_seq(lower_of(c.title), q) || contains_seq(lower_of(c.description), q)
}

/// The courses matching a (lower-case) query, in table order.
pub open spec fn matching_courses(courses: Seq<CourseV>, q: Seq<char>) -> Seq<CourseV>
    decreases courses.len(),
{
    if courses.len() == 0 {
        Seq::empty()
    } else {
        let rest = matching_courses(courses.drop_last(), q);
        if course_matches(courses.last(), q) {
            rest.push(courses.last())
        } else {
            rest
        }
    }
}

/// The enrollments of one student, in table order.
pub open spec fn enrollments_of(
    enrollments: Seq<EnrollmentV>,
    student: Seq<char>,
) -> Seq<EnrollmentV>
    decreases enrollments.len(),
{
    if enrollments.len() == 0 {
        Seq::empty()
    } else {
        let rest = enrollments_of(enrollments.drop_last(), student);
        if enrollments.last().student_id == student {
            rest.push(enrollments.last())
        } else {
            rest
        }
    }
}

/// The discussions of one course, in table order.
pub open spec fn discussions_of(
    discussions: Seq<DiscussionV>,
    course: Seq<char>,
) -> Seq<DiscussionV>
    decreases discussions.len(),
{
    if discussions.len() == 0 {
        Seq::empty()
    } else {
        let rest = discussions_of(discussions.drop_last(), course);
        if discussions.last().course_id == course {
            rest.push(discussions.last())
        } else {
            rest
        }
    }
}

/// The certificates of one student, in log order.
pub open spec fn certificates_of(certs: Seq<CertificateV>, student: Seq<char>) -> Seq<CertificateV>
    decreases certs.len(),
{
    if certs.len() == 0 {
        Seq::empty()
    } else {
        let rest = certificates_of(certs.drop_last(), student);
        if certs.last().student_id == student {
            rest.push(certs.last())
        } else {
            rest
        }
    }
}

// ---------------------------------------------------------------------------
// Preservation of well-formedness under the mutation shapes the operations
// use.
// ---------------------------------------------------------------------------

/// Raising the id counter, touching nothing else, keeps the store
/// well-formed.
proof fn lemma_wf_bump(pre: StoreV, post: StoreV)
    requires
        pre.wf(),
        post.users == pre.users,
        post.courses == pre.courses,
        post.quizzes == pre.quizzes,
        post.enrollments == pre.enrollments,
        post.discussions == pre.discussions,
        post.certificates == pre.certificates,
        pre.next_id <= post.next_id,
    ensures
        post.wf(),
{
    assert forall|i: int, j: int| 0 <= i < j < post.users.len() implies post.users[i].id
        != post.users[j].id by {
        assert(pre.users[i].id != pre.users[j].id);
    }
    assert forall|i: int, j: int| 0 <= i < j < post.courses.len() implies post.courses[i].id
        != post.courses[j].id by {
        assert(pre.courses[i].id != pre.courses[j].id);
    }
    assert forall|i: int| 0 <= i < post.courses.len() implies course_ok(
        #[trigger] post.courses[i],
        post.users,
        post.quizzes,
        post.next_id as nat,
    ) by {
        assert(course_ok(pre.courses[i], pre.users, pre.quizzes, pre.next_id as nat));
        lemma_counter_below_widen(pre.courses[i].id, pre.next_id as nat, post.next_id as nat);
        assert forall|k: int| 0 <= k < post.courses[i].lessons.len() implies from_counter_below(
            #[trigger] post.courses[i].lessons[k].id,
            post.next_id as nat,
        ) by {
            assert(from_counter_below(pre.courses[i].lessons[k].id, pre.next_id as nat));
            lemma_counter_below_widen(
                pre.courses[i].lessons[k].id,
                pre.next_id as nat,
                post.next_id as nat,
            );
        }
    }
    assert forall|i: int, j: int| 0 <= i < j < post.quizzes.len() implies post.quizzes[i].id
        != post.quizzes[j].id by {
        assert(pre.quizzes[i].id != pre.quizzes[j].id);
    }
    assert forall|i: int| 0 <= i < post.quizzes.len() implies quiz_ok(
        #[trigger] post.quizzes[i],
        post.courses,
        post.next_id as nat,
    ) by {
        assert(quiz_ok(pre.quizzes[i], pre.courses, pre.next_id as nat));
        lemma_counter_below_widen(pre.quizzes[i].id, pre.next_id as nat, post.next_id as nat);
    }
    assert forall|i: int, j: int| 0 <= i < j < post.enrollments.len() implies !(
    post.enrollments[i].student_id == post.enrollments[j].student_id
        && post.enrollments[i].course_id == post.enrollments[j].course_id) by {
        assert(!(pre.enrollments[i].student_id == pre.enrollments[j].student_id
            && pre.enrollments[i].course_id == pre.enrollments[j].course_id));
    }
    assert forall|i: int| 0 <= i < post.enrollments.len() implies enrollment_ok(
        #[trigger] post.enrollments[i],
        post.users,
        post.courses,
        post.certificates,
    ) by {
        assert(enrollment_ok(pre.enrollments[i], pre.users, pre.courses, pre.certificates));
    }
    assert forall|i: int, j: int| 0 <= i < j < post.discussions.len() implies post.discussions[i].id
        != post.discussions[j].id by {
        assert(pre.discussions[i].id != pre.discussions[j].id);
    }
    assert forall|i: int| 0 <= i < post.discussions.len() implies discussion_ok(
        #[trigger] post.discussions[i],
        post.users,
        post.courses,
        post.next_id as nat,
    ) by {
        assert(discussion_ok(pre.discussions[i], pre.users, pre.courses, pre.next_id as nat));
        lemma_counter_below_widen(pre.discussions[i].id, pre.next_id as nat, post.next_id as nat);
        assert forall|k: int| 0 <= k < post.discussions[i].replies.len() implies from_counter_below(
            #[trigger] post.discussions[i].replies[k].id,
            post.next_id as nat,
        ) by {
            assert(from_counter_below(pre.discussions[i].replies[k].id, pre.next_id as nat));
            lemma_counter_below_widen(
                pre.discussions[i].replies[k].id,
                pre.next_id as nat,
                post.next_id as nat,
            );
        }
    }
    assert forall|i: int, j: int| 0 <= i < j < post.certificates.len() implies !(
    post.certificates[i].student_id == post.certificates[j].student_id
        && post.certificates[i].course_id == post.certificates[j].course_id) by {
        assert(!(pre.certificates[i].student_id == pre.certificates[j].student_id
            && pre.certificates[i].course_id == pre.certificates[j].course_id));
    }
    assert forall|i: int| 0 <= i < post.certificates.len() implies enrollment_flagged_in(
        post.enrollments,
        (#[trigger] post.certificates[i]).student_id,
        post.certificates[i].course_id,
    ) by {
        assert(enrollment_flagged_in(
            pre.enrollments,
            pre.certificates[i].student_id,
            pre.certificates[i].course_id,
        ));
    }
}

/// Appending a well-formed course with a fresh id keeps the store
/// well-formed.
proof fn lemma_wf_push_course(pre: StoreV, post: StoreV, c: CourseV)
    requires
        pre.wf(),
        post.users == pre.users,
        post.courses == pre.courses.push(c),
        post.quizzes == pre.quizzes,
        post.enrollments == pre.enrollments,
        post.discussions == pre.discussions,
        post.certificates == pre.certificates,
        post.next_id == pre.next_id,
        course_ok(c, pre.users, pre.quizzes, pre.next_id as nat),
        forall|i: int| 0 <= i < pre.courses.len() ==> (#[trigger] pre.courses[i]).id != c.id,
    ensures
        post.wf(),
{
    let n = pre.courses.len() as int;
    assert forall|i: int, j: int| 0 <= i < j < post.users.len() implies post.users[i].id
        != post.users[j].id by {
        assert(pre.users[i].id != pre.users[j].id);
    }
    assert forall|i: int, j: int| 0 <= i < j < post.courses.len() implies post.courses[i].id
        != post.courses[j].id by {
        if j < n {
            assert(pre.courses[i].id != pre.courses[j].id);
        } else {
            assert(post.courses[j] == c);
            assert(pre.courses[i].id != c.id);
        }
    }
    assert forall|i: int| 0 <= i < post.courses.len() implies course_ok(
        #[trigger] post.courses[i],
        post.users,
        post.quizzes,
        post.next_id as nat,
    ) by {
        if i < n {
            assert(course_ok(pre.courses[i], pre.users, pre.quizzes, pre.next_id as nat));
        } else {
            assert(post.courses[i] == c);
        }
    }
    assert forall|i: int, j: int| 0 <= i < j < post.quizzes.len() implies post.quizzes[i].id
        != post.quizzes[j].id by {
        assert(pre.quizzes[i].id != pre.quizzes[j].id);
    }
    assert forall|i: int| 0 <= i < post.quizzes.len() implies quiz_ok(
        #[trigger] post.quizzes[i],
        post.courses,
        post.next_id as nat,
    ) by {
        assert(quiz_ok(pre.quizzes[i], pre.courses, pre.next_id as nat));
        let k = choose|k: int|
            0 <= k < pre.courses.len() && pre.courses[k].id == pre.quizzes[i].course_id;
        assert(post.courses[k] == pre.courses[k]);
    }
    assert forall|i: int, j: int| 0 <= i < j < post.enrollments.len() implies !(
    post.enrollments[i].student_id == post.enrollments[j].student_id
        && post.enrollments[i].course_id == post.enrollments[j].course_id) by {
        assert(!(pre.enrollments[i].student_id == pre.enrollments[j].student_id
            && pre.enrollments[i].course_id == pre.enrollments[j].course_id));
    }
    assert forall|i: int| 0 <= i < post.enrollments.len() implies enrollment_ok(
        #[trigger] post.enrollments[i],
        post.users,
        post.courses,
        post.certificates,
    ) by {
        let e = pre.enrollments[i];
        assert(enrollment_ok(e, pre.users, pre.courses, pre.certificates));
        let k = choose|k: int|
            0 <= k < pre.courses.len() && pre.courses[k].id == e.course_id && (forall|j: int|
                0 <= j < e.completed_lessons.len() ==> course_has_lesson(
                    pre.courses[k],
                    #[trigger] e.completed_lessons[j],
                ));
        assert(post.courses[k] == pre.courses[k]);
        assert(course_covers(post.courses, e.course_id, e.completed_lessons));
    }
    assert forall|i: int, j: int| 0 <= i < j < post.discussions.len() implies post.discussions[i].id
        != post.discussions[j].id by {
        assert(pre.discussions[i].id != pre.discussions[j].id);
    }
    assert forall|i: int| 0 <= i < post.discussions.len() implies discussion_ok(
        #[trigger] post.discussions[i],
        post.users,
        post.courses,
        post.next_id as nat,
    ) by {
        assert(discussion_ok(pre.discussions[i], pre.users, pre.courses, pre.next_id as nat));
        let k = choose|k: int|
            0 <= k < pre.courses.len() && pre.courses[k].id == pre.discussions[i].course_id;
        assert(post.courses[k] == pre.courses[k]);
    }
    assert forall|i: int, j: int| 0 <= i < j < post.certificates.len() implies !(
    post.certificates[i].student_id == post.certificates[j].student_id
        && post.certificates[i].course_id == post.certificates[j].course_id) by {
        assert(!(pre.certificates[i].student_id == pre.certificates[j].student_id
            && pre.certificates[i].course_id == pre.certificates[j].course_id));
    }
    assert forall|i: int| 0 <= i < post.certificates.len() implies enrollment_flagged_in(
        post.enrollments,
        (#[trigger] post.certificates[i]).student_id,
        post.certificates[i].course_id,
    ) by {
        assert(enrollment_flagged_in(
            pre.enrollments,
            pre.certificates[i].student_id,
            pre.certificates[i].course_id,
        ));
    }
}

/// Appending a well-formed quiz with a fresh id keeps the store well-formed.
proof fn lemma_wf_push_quiz(pre: StoreV, post: StoreV, q: QuizV)
    requires
        pre.wf(),
        post.users == pre.users,
        post.courses == pre.courses,
        post.quizzes == pre.quizzes.push(q),
        post.enrollments == pre.enrollments,
        post.discussions == pre.discussions,
        post.certificates == pre.certificates,
        post.next_id == pre.next_id,
        quiz_ok(q, pre.courses, pre.next_id as nat),
        forall|i: int| 0 <= i < pre.quizzes.len() ==> (#[trigger] pre.quizzes[i]).id != q.id,
    ensures
        post.wf(),
{
    let n = pre.quizzes.len() as int;
    assert forall|i: int, j: int| 0 <= i < j < post.users.len() implies post.users[i].id
        != post.users[j].id by {
        assert(pre.users[i].id != pre.users[j].id);
    }
    assert forall|i: int, j: int| 0 <= i < j < post.courses.len() implies post.courses[i].id
        != post.courses[j].id by {
        assert(pre.courses[i].id != pre.courses[j].id);
    }
    assert forall|i: int| 0 <= i < post.courses.len() implies course_ok(
        #[trigger] post.courses[i],
        post.users,
        post.quizzes,
        post.next_id as nat,
    ) by {
        let c = pre.courses[i];
        assert(course_ok(c, pre.users, pre.quizzes, pre.next_id as nat));
        assert forall|k: int|
            0 <= k < c.lessons.len() implies (#[trigger] c.lessons[k].quiz_id matches Some(qid)
            ==> quiz_for_lesson_in(post.quizzes, qid, c.lessons[k].id)) by {
            if c.lessons[k].quiz_id is Some {
                let qid = c.lessons[k].quiz_id->0;
                let w = choose|w: int|
                    0 <= w < pre.quizzes.len() && pre.quizzes[w].id == qid
                        && pre.quizzes[w].lesson_id == c.lessons[k].id;
                assert(post.quizzes[w] == pre.quizzes[w]);
            }
        }
    }
    assert forall|i: int, j: int| 0 <= i < j < post.quizzes.len() implies post.quizzes[i].id
        != post.quizzes[j].id by {
        if j < n {
            assert(pre.quizzes[i].id != pre.quizzes[j].id);
        } else {
            assert(post.quizzes[j] == q);
            assert(pre.quizzes[i].id != q.id);
        }
    }
    assert forall|i: int| 0 <= i < post.quizzes.len() implies quiz_ok(
        #[trigger] post.quizzes[i],
        post.courses,
        post.next_id as nat,
    ) by {
        if i < n {
            assert(quiz_ok(pre.quizzes[i], pre.courses, pre.next_id as nat));
        } else {
            assert(post.quizzes[i] == q);
        }
    }
    assert forall|i: int, j: int| 0 <= i < j < post.enrollments.len() implies !(
    post.enrollments[i].student_id == post.enrollments[j].student_id
        && post.enrollments[i].course_id == post.enrollments[j].course_id) by {
        assert(!(pre.enrollments[i].student_id == pre.enrollments[j].student_id
            && pre.enrollments[i].course_id == pre.enrollments[j].course_id));
    }
    assert forall|i: int| 0 <= i < post.enrollments.len() implies enrollment_ok(
        #[trigger] post.enrollments[i],
        post.users,
        post.courses,
        post.certificates,
    ) by {
        assert(enrollment_ok(pre.enrollments[i], pre.users, pre.courses, pre.certificates));
    }
    assert forall|i: int, j: int| 0 <= i < j < post.discussions.len() implies post.discussions[i].id
        != post.discussions[j].id by {
        assert(pre.discussions[i].id != pre.discussions[j].id);
    }
    assert forall|i: int| 0 <= i < post.discussions.len() implies discussion_ok(
        #[trigger] post.discussions[i],
        post.users,
        post.courses,
        post.next_id as nat,
    ) by {
        assert(discussion_ok(pre.discussions[i], pre.users, pre.courses, pre.next_id as nat));
    }
    assert forall|i: int, j: int| 0 <= i < j < post.certificates.len() implies !(
    post.certificates[i].student_id == post.certificates[j].student_id
        && post.certificates[i].course_id == post.certificates[j].course_id) by {
        assert(!(pre.certificates[i].student_id == pre.certificates[j].student_id
            && pre.certificates[i].course_id == pre.certificates[j].course_id));
    }
    assert forall|i: int| 0 <= i < post.certificates.len() implies enrollment_flagged_in(
        post.enrollments,
        (#[trigger] post.certificates[i]).student_id,
        post.certificates[i].course_id,
    ) by {
        assert(enrollment_flagged_in(
            pre.enrollments,
            pre.certificates[i].student_id,
            pre.certificates[i].course_id,
        ));
    }
}

/// Appending a well-formed enrollment with a fresh (student, course) key
/// keeps the store well-formed.
proof fn lemma_wf_push_enrollment(pre: StoreV, post: StoreV, e: EnrollmentV)
    requires
        pre.wf(),
        post.users == pre.users,
        post.courses == pre.courses,
        post.quizzes == pre.quizzes,
        post.enrollments == pre.enrollments.push(e),
        post.discussions == pre.discussions,
        post.certificates == pre.certificates,
        post.next_id == pre.next_id,
        enrollment_ok(e, pre.users, pre.courses, pre.certificates),
        forall|i: int|
            0 <= i < pre.enrollments.len() ==> !((#[trigger] pre.enrollments[i]).student_id
                == e.student_id && pre.enrollments[i].course_id == e.course_id),
    ensures
        post.wf(),
{
    let n = pre.enrollments.len() as int;
    assert forall|i: int, j: int| 0 <= i < j < post.users.len() implies post.users[i].id
        != post.users[j].id by {
        assert(pre.users[i].id != pre.users[j].id);
    }
    assert forall|i: int, j: int| 0 <= i < j < post.courses.len() implies post.courses[i].id
        != post.courses[j].id by {
        assert(pre.courses[i].id != pre.courses[j].id);
    }
    assert forall|i: int| 0 <= i < post.courses.len() implies course_ok(
        #[trigger] post.courses[i],
        post.users,
        post.quizzes,
        post.next_id as nat,
    ) by {
        assert(course_ok(pre.courses[i], pre.users, pre.quizzes, pre.next_id as nat));
    }
    assert forall|i: int, j: int| 0 <= i < j < post.quizzes.len() implies post.quizzes[i].id
        != post.quizzes[j].id by {
        assert(pre.quizzes[i].id != pre.quizzes[j].id);
    }
    assert forall|i: int| 0 <= i < post.quizzes.len() implies quiz_ok(
        #[trigger] post.quizzes[i],
        post.courses,
        post.next_id as nat,
    ) by {
        assert(quiz_ok(pre.quizzes[i], pre.courses, pre.next_id as nat));
    }
    assert forall|i: int, j: int| 0 <= i < j < post.enrollments.len() implies !(
    post.enrollments[i].student_id == post.enrollments[j].student_id
        && post.enrollments[i].course_id == post.enrollments[j].course_id) by {
        if j < n {
            assert(!(pre.enrollments[i].student_id == pre.enrollments[j].student_id
                && pre.enrollments[i].course_id == pre.enrollments[j].course_id));
        } else {
            assert(post.enrollments[j] == e);
            assert(!(pre.enrollments[i].student_id == e.student_id
                && pre.enrollments[i].course_id == e.course_id));
        }
    }
    assert forall|i: int| 0 <= i < post.enrollments.len() implies enrollment_ok(
        #[trigger] post.enrollments[i],
        post.users,
        post.courses,
        post.certificates,
    ) by {
        if i < n {
            assert(enrollment_ok(pre.enrollments[i], pre.users, pre.courses, pre.certificates));
        } else {
            assert(post.enrollments[i] == e);
        }
    }
    assert forall|i: int, j: int| 0 <= i < j < post.discussions.len() implies post.discussions[i].id
        != post.discussions[j].id by {
        assert(pre.discussions[i].id != pre.discussions[j].id);
    }
    assert forall|i: int| 0 <= i < post.discussions.len() implies discussion_ok(
        #[trigger] post.discussions[i],
        post.users,
        post.courses,
        post.next_id as nat,
    ) by {
        assert(discussion_ok(pre.discussions[i], pre.users, pre.courses, pre.next_id as nat));
    }
    assert forall|i: int, j: int| 0 <= i < j < post.certificates.len() implies !(
    post.certificates[i].student_id == post.certificates[j].student_id
        && post.certificates[i].course_id == post.certificates[j].course_id) by {
        assert(!(pre.certificates[i].student_id == pre.certificates[j].student_id
            && pre.certificates[i].course_id == pre.certificates[j].course_id));
    }
    assert forall|i: int| 0 <= i < post.certificates.len() implies enrollment_flagged_in(
        post.enrollments,
        (#[trigger] post.certificates[i]).student_id,
        post.certificates[i].course_id,
    ) by {
        assert(enrollment_flagged_in(
            pre.enrollments,
            pre.certificates[i].student_id,
            pre.certificates[i].course_id,
        ));
        let k = choose|k: int|
            0 <= k < pre.enrollments.len() && pre.enrollments[k].student_id
                == pre.certificates[i].student_id && pre.enrollments[k].course_id
                == pre.certificates[i].course_id && pre.enrollments[k].certificate_issued;
        assert(post.enrollments[k] == pre.enrollments[k]);
    }
}

/// Appending a well-formed discussion with a fresh id keeps the store
/// well-formed.
proof fn lemma_wf_push_discussion(pre: StoreV, post: StoreV, d: DiscussionV)
    requires
        pre.wf(),
        post.users == pre.users,
        post.courses == pre.courses,
        post.quizzes == pre.quizzes,
        post.enrollments == pre.enrollments,
        post.discussions == pre.discussions.push(d),
        post.certificates == pre.certificates,
        post.next_id == pre.next_id,
        discussion_ok(d, pre.users, pre.courses, pre.next_id as nat),
        forall|i: int| 0 <= i < pre.discussions.len() ==> (#[trigger] pre.discussions[i]).id != d.id,
    ensures
        post.wf(),
{
    let n = pre.discussions.len() as int;
    assert forall|i: int, j: int| 0 <= i < j < post.users.len() implies post.users[i].id
        != post.users[j].id by {
        assert(pre.users[i].id != pre.users[j].id);
    }
    assert forall|i: int, j: int| 0 <= i < j < post.courses.len() implies post.courses[i].id
        != post.courses[j].id by {
        assert(pre.courses[i].id != pre.courses[j].id);
    }
    assert forall|i: int| 0 <= i < post.courses.len() implies course_ok(
        #[trigger] post.courses[i],
        post.users,
        post.quizzes,
        post.next_id as nat,
    ) by {
        assert(course_ok(pre.courses[i], pre.users, pre.quizzes, pre.next_id as nat));
    }
    assert forall|i: int, j: int| 0 <= i < j < post.quizzes.len() implies post.quizzes[i].id
        != post.quizzes[j].id by {
        assert(pre.quizzes[i].id != pre.quizzes[j].id);
    }
    assert forall|i: int| 0 <= i < post.quizzes.len() implies quiz_ok(
        #[trigger] post.quizzes[i],
        post.courses,
        post.next_id as nat,
    ) by {
        assert(quiz_ok(pre.quizzes[i], pre.courses, pre.next_id as nat));
    }
    assert forall|i: int, j: int| 0 <= i < j < post.enrollments.len() implies !(
    post.enrollments[i].student_id == post.enrollments[j].student_id
        && post.enrollments[i].course_id == post.enrollments[j].course_id) by {
        assert(!(pre.enrollments[i].student_id == pre.enrollments[j].student_id
            && pre.enrollments[i].course_id == pre.enrollments[j].course_id));
    }
    assert forall|i: int| 0 <= i < post.enrollments.len() implies enrollment_ok(
        #[trigger] post.enrollments[i],
        post.users,
        post.courses,
        post.certificates,
    ) by {
        assert(enrollment_ok(pre.enrollments[i], pre.users, pre.courses, pre.certificates));
    }
    assert forall|i: int, j: int| 0 <= i < j < post.discussions.len() implies post.discussions[i].id
        != post.discussions[j].id by {
        if j < n {
            assert(pre.discussions[i].id != pre.discussions[j].id);
        } else {
            assert(post.discussions[j] == d);
            assert(pre.discussions[i].id != d.id);
        }
    }
    assert forall|i: int| 0 <= i < post.discussions.len() implies discussion_ok(
        #[trigger] post.discussions[i],
        post.users,
        post.courses,
        post.next_id as nat,
    ) by {
        if i < n {
            assert(discussion_ok(pre.discussions[i], pre.users, pre.courses, pre.next_id as nat));
        } else {
            assert(post.discussions[i] == d);
        }
    }
    assert forall|i: int, j: int| 0 <= i < j < post.certificates.len() implies !(
    post.certificates[i].student_id == post.certificates[j].student_id
        && post.certificates[i].course_id == post.certificates[j].course_id) by {
        assert(!(pre.certificates[i].student_id == pre.certificates[j].student_id
            && pre.certificates[i].course_id == pre.certificates[j].course_id));
    }
    assert forall|i: int| 0 <= i < post.certificates.len() implies enrollment_flagged_in(
        post.enrollments,
        (#[trigger] post.certificates[i]).student_id,
        post.certificates[i].course_id,
    ) by {
        assert(enrollment_flagged_in(
            pre.enrollments,
            pre.certificates[i].student_id,
            pre.certificates[i].course_id,
        ));
    }
}

/// Appending a quiz attempt keeps the store well-formed: no invariant reads
/// the attempt log.
proof fn lemma_wf_push_attempt(pre: StoreV, post: StoreV)
    requires
        pre.wf(),
        post.users == pre.users,
        post.courses == pre.courses,
        post.quizzes == pre.quizzes,
        post.enrollments == pre.enrollments,
        post.discussions == pre.discussions,
        post.certificates == pre.certificates,
        post.next_id == pre.next_id,
    ensures
        post.wf(),
{
    lemma_wf_bump(pre, post);
}

/// Replacing a course by a well-formed one with the same id and at least the
/// same lessons (by id) keeps the store well-formed.
proof fn lemma_wf_update_course(pre: StoreV, post: StoreV, at: int, c: CourseV)
    requires
        pre.wf(),
        0 <= at < pre.courses.len(),
        c.id == pre.courses[at].id,
        post.users == pre.users,
        post.courses == pre.courses.update(at, c),
        post.quizzes == pre.quizzes,
        post.enrollments == pre.enrollments,
        post.discussions == pre.discussions,
        post.certificates == pre.certificates,
        post.next_id == pre.next_id,
        course_ok(c, pre.users, pre.quizzes, pre.next_id as nat),
        forall|l: Seq<char>|
            course_has_lesson(pre.courses[at], l) ==> #[trigger] course_has_lesson(c, l),
    ensures
        post.wf(),
{
    assert forall|i: int, j: int| 0 <= i < j < post.users.len() implies post.users[i].id
        != post.users[j].id by {
        assert(pre.users[i].id != pre.users[j].id);
    }
    assert forall|i: int, j: int| 0 <= i < j < post.courses.len() implies post.courses[i].id
        != post.courses[j].id by {
        assert(post.courses[i].id == pre.courses[i].id);
        assert(post.courses[j].id == pre.courses[j].id);
        assert(pre.courses[i].id != pre.courses[j].id);
    }
    assert forall|i: int| 0 <= i < post.courses.len() implies course_ok(
        #[trigger] post.courses[i],
        post.users,
        post.quizzes,
        post.next_id as nat,
    ) by {
        if i != at {
            assert(post.courses[i] == pre.courses[i]);
            assert(course_ok(pre.courses[i], pre.users, pre.quizzes, pre.next_id as nat));
        } else {
            assert(post.courses[i] == c);
        }
    }
    assert forall|i: int, j: int| 0 <= i < j < post.quizzes.len() implies post.quizzes[i].id
        != post.quizzes[j].id by {
        assert(pre.quizzes[i].id != pre.quizzes[j].id);
    }
    assert forall|i: int| 0 <= i < post.quizzes.len() implies quiz_ok(
        #[trigger] post.quizzes[i],
        post.courses,
        post.next_id as nat,
    ) by {
        assert(quiz_ok(pre.quizzes[i], pre.courses, pre.next_id as nat));
        let k = choose|k: int|
            0 <= k < pre.courses.len() && pre.courses[k].id == pre.quizzes[i].course_id;
        assert(post.courses[k].id == pre.courses[k].id);
    }
    assert forall|i: int, j: int| 0 <= i < j < post.enrollments.len() implies !(
    post.enrollments[i].student_id == post.enrollments[j].student_id
        && post.enrollments[i].course_id == post.enrollments[j].course_id) by {
        assert(!(pre.enrollments[i].student_id == pre.enrollments[j].student_id
            && pre.enrollments[i].course_id == pre.enrollments[j].course_id));
    }
    assert forall|i: int| 0 <= i < post.enrollments.len() implies enrollment_ok(
        #[trigger] post.enrollments[i],
        post.users,
        post.courses,
        post.certificates,
    ) by {
        let e = pre.enrollments[i];
        assert(enrollment_ok(e, pre.users, pre.courses, pre.certificates));
        let k = choose|k: int|
            0 <= k < pre.courses.len() && pre.courses[k].id == e.course_id && (forall|j: int|
                0 <= j < e.completed_lessons.len() ==> course_has_lesson(
                    pre.courses[k],
                    #[trigger] e.completed_lessons[j],
                ));
        if k != at {
            assert(post.courses[k] == pre.courses[k]);
            assert(course_covers(post.courses, e.course_id, e.completed_lessons));
        } else {
            assert(post.courses[at] == c);
            assert forall|j: int| 0 <= j < e.completed_lessons.len() implies course_has_lesson(
                post.courses[at],
                #[trigger] e.completed_lessons[j],
            ) by {
                assert(course_has_lesson(pre.courses[at], e.completed_lessons[j]));
            }
            assert(course_covers(post.courses, e.course_id, e.completed_lessons));
        }
    }
    assert forall|i: int, j: int| 0 <= i < j < post.discussions.len() implies post.discussions[i].id
        != post.discussions[j].id by {
        assert(pre.discussions[i].id != pre.discussions[j].id);
    }
    assert forall|i: int| 0 <= i < post.discussions.len() implies discussion_ok(
        #[trigger] post.discussions[i],
        post.users,
        post.courses,
        post.next_id as nat,
    ) by {
        assert(discussion_ok(pre.discussions[i], pre.users, pre.courses, pre.next_id as nat));
        let k = choose|k: int|
            0 <= k < pre.courses.len() && pre.courses[k].id == pre.discussions[i].course_id;
        assert(post.courses[k].id == pre.courses[k].id);
    }
    assert forall|i: int, j: int| 0 <= i < j < post.certificates.len() implies !(
    post.certificates[i].student_id == post.certificates[j].student_id
        && post.certificates[i].course_id == post.certificates[j].course_id) by {
        assert(!(pre.certificates[i].student_id == pre.certificates[j].student_id
            && pre.certificates[i].course_id == pre.certificates[j].course_id));
    }
    assert forall|i: int| 0 <= i < post.certificates.len() implies enrollment_flagged_in(
        post.enrollments,
        (#[trigger] post.certificates[i]).student_id,
        post.certificates[i].course_id,
    ) by {
        assert(enrollment_flagged_in(
            pre.enrollments,
            pre.certificates[i].student_id,
            pre.certificates[i].course_id,
        ));
    }
}

/// Replacing an enrollment by a well-formed one with the same key, without
/// clearing its certificate flag, keeps the store well-formed.
proof fn lemma_wf_update_enrollment(pre: StoreV, post: StoreV, at: int, e: EnrollmentV)
    requires
        pre.wf(),
        0 <= at < pre.enrollments.len(),
        e.student_id == pre.enrollments[at].student_id,
        e.course_id == pre.enrollments[at].course_id,
        post.users == pre.users,
        post.courses == pre.courses,
        post.quizzes == pre.quizzes,
        post.enrollments == pre.enrollments.update(at, e),
        post.discussions == pre.discussions,
        post.certificates == pre.certificates,
        post.next_id == pre.next_id,
        enrollment_ok(e, pre.users, pre.courses, pre.certificates),
        pre.enrollments[at].certificate_issued ==> e.certificate_issued,
    ensures
        post.wf(),
{
    assert forall|i: int, j: int| 0 <= i < j < post.users.len() implies post.users[i].id
        != post.users[j].id by {
        assert(pre.users[i].id != pre.users[j].id);
    }
    assert forall|i: int, j: int| 0 <= i < j < post.courses.len() implies post.courses[i].id
        != post.courses[j].id by {
        assert(pre.courses[i].id != pre.courses[j].id);
    }
    assert forall|i: int| 0 <= i < post.courses.len() implies course_ok(
        #[trigger] post.courses[i],
        post.users,
        post.quizzes,
        post.next_id as nat,
    ) by {
        assert(course_ok(pre.courses[i], pre.users, pre.quizzes, pre.next_id as nat));
    }
    assert forall|i: int, j: int| 0 <= i < j < post.quizzes.len() implies post.quizzes[i].id
        != post.quizzes[j].id by {
        assert(pre.quizzes[i].id != pre.quizzes[j].id);
    }
    assert forall|i: int| 0 <= i < post.quizzes.len() implies quiz_ok(
        #[trigger] post.quizzes[i],
        post.courses,
        post.next_id as nat,
    ) by {
        assert(quiz_ok(pre.quizzes[i], pre.courses, pre.next_id as nat));
    }
    assert forall|i: int, j: int| 0 <= i < j < post.enrollments.len() implies !(
    post.enrollments[i].student_id == post.enrollments[j].student_id
        && post.enrollments[i].course_id == post.enrollments[j].course_id) by {
        assert(post.enrollments[i].student_id == pre.enrollments[i].student_id
            && post.enrollments[i].course_id == pre.enrollments[i].course_id);
        assert(post.enrollments[j].student_id == pre.enrollments[j].student_id
            && post.enrollments[j].course_id == pre.enrollments[j].course_id);
        assert(!(pre.enrollments[i].student_id == pre.enrollments[j].student_id
            && pre.enrollments[i].course_id == pre.enrollments[j].course_id));
    }
    assert forall|i: int| 0 <= i < post.enrollments.len() implies enrollment_ok(
        #[trigger] post.enrollments[i],
        post.users,
        post.courses,
        post.certificates,
    ) by {
        if i != at {
            assert(post.enrollments[i] == pre.enrollments[i]);
            assert(enrollment_ok(pre.enrollments[i], pre.users, pre.courses, pre.certificates));
        } else {
            assert(post.enrollments[i] == e);
        }
    }
    assert forall|i: int, j: int| 0 <= i < j < post.discussions.len() implies post.discussions[i].id
        != post.discussions[j].id by {
        assert(pre.discussions[i].id != pre.discussions[j].id);
    }
    assert forall|i: int| 0 <= i < post.discussions.len() implies discussion_ok(
        #[trigger] post.discussions[i],
        post.users,
        post.courses,
        post.next_id as nat,
    ) by {
        assert(discussion_ok(pre.discussions[i], pre.users, pre.courses, pre.next_id as nat));
    }
    assert forall|i: int, j: int| 0 <= i < j < post.certificates.len() implies !(
    post.certificates[i].student_id == post.certificates[j].student_id
        && post.certificates[i].course_id == post.certificates[j].course_id) by {
        assert(!(pre.certificates[i].student_id == pre.certificates[j].student_id
            && pre.certificates[i].course_id == pre.certificates[j].course_id));
    }
    assert forall|i: int| 0 <= i < post.certificates.len() implies enrollment_flagged_in(
        post.enrollments,
        (#[trigger] post.certificates[i]).student_id,
        post.certificates[i].course_id,
    ) by {
        assert(enrollment_flagged_in(
            pre.enrollments,
            pre.certificates[i].student_id,
            pre.certificates[i].course_id,
        ));
        let k = choose|k: int|
            0 <= k < pre.enrollments.len() && pre.enrollments[k].student_id
                == pre.certificates[i].student_id && pre.enrollments[k].course_id
                == pre.certificates[i].course_id && pre.enrollments[k].certificate_issued;
        if k != at {
            assert(post.enrollments[k] == pre.enrollments[k]);
        } else {
            assert(post.enrollments[at] == e);
            assert(e.certificate_issued);
        }
    }
}

// ---------------------------------------------------------------------------
// Helper lemmas for lesson insertion and progress computation.
// ---------------------------------------------------------------------------

/// `k` is the place a lesson with order `ord` goes: after every lesson with
/// order at most `ord`, before the rest.
pub open spec fn lesson_slot(lessons: Seq<LessonV>, ord: u32, k: int) -> bool {
    &&& 0 <= k <= lessons.len()
    &&& forall|j: int| 0 <= j < k ==> lessons[j].order <= ord
    &&& (k < lessons.len() ==> lessons[k].order > ord)
}

/// The insertion place for order `ord` (unique when the lessons are sorted).
pub open spec fn slot_of(lessons: Seq<LessonV>, ord: u32) -> int {
    choose|k: int| lesson_slot(lessons, ord, k)
}

proof fn lemma_slot_unique(lessons: Seq<LessonV>, ord: u32, k1: int, k2: int)
    requires
        lesson_slot(lessons, ord, k1),
        lesson_slot(lessons, ord, k2),
    ensures
        k1 == k2,
{
    if k1 < k2 {
        assert(lessons[k1].order <= ord);
    }
    if k2 < k1 {
        assert(lessons[k2].order <= ord);
    }
}

/// Inserting a fresh lesson at its slot keeps the lesson list sorted and its
/// ids unique, keeps every old lesson, and adds nothing else.
proof fn lemma_lessons_insert(cl: Seq<LessonV>, lv: LessonV, k: int)
    requires
        lessons_sorted(cl),
        lesson_slot(cl, lv.order, k),
        forall|i: int, j: int| 0 <= i < j < cl.len() ==> cl[i].id != cl[j].id,
        forall|i: int| 0 <= i < cl.len() ==> (#[trigger] cl[i]).id != lv.id,
    ensures
        lessons_sorted(cl.insert(k, lv)),
        forall|i: int, j: int|
            0 <= i < j < cl.insert(k, lv).len() ==> cl.insert(k, lv)[i].id != cl.insert(k, lv)[j].id,
        forall|l: Seq<char>| lesson_in(cl, l) ==> #[trigger] lesson_in(cl.insert(k, lv), l),
        forall|i: int|
            0 <= i < cl.insert(k, lv).len() ==> (#[trigger] cl.insert(k, lv)[i] == lv || exists|
                w: int,
            | 0 <= w < cl.len() && cl.insert(k, lv)[i] == cl[w]),
{
    cl.insert_ensures(k, lv);
    let s = cl.insert(k, lv);
    assert forall|i: int| 0 <= i < s.len() implies (#[trigger] s[i] == lv || exists|w: int|
        0 <= w < cl.len() && s[i] == cl[w]) by {
        if i < k {
            assert(s[i] == cl[i]);
        } else if i == k {
        } else {
            assert(s[i] == cl[i - 1]);
        }
    }
    assert forall|i: int, j: int| 0 <= i <= j < s.len() implies s[i].order <= s[j].order by {
        let a = if i < k {
            cl[i]
        } else if i == k {
            lv
        } else {
            cl[i - 1]
        };
        let b = if j < k {
            cl[j]
        } else if j == k {
            lv
        } else {
            cl[j - 1]
        };
        assert(s[i] == a && s[j] == b);
        if i == k && j > k {
            assert(cl[k].order > lv.order);
            assert(cl[k].order <= cl[j - 1].order);
        }
        if i < k && j == k {
            assert(cl[i].order <= lv.order);
        }
    }
    assert forall|i: int, j: int| 0 <= i < j < s.len() implies s[i].id != s[j].id by {
        if i != k && j != k {
            let wi: int = if i < k {
                i
            } else {
                i - 1
            };
            let wj: int = if j < k {
                j
            } else {
                j - 1
            };
            assert(s[i] == cl[wi] && s[j] == cl[wj]);
            assert(wi < wj);
            assert(cl[wi].id != cl[wj].id);
        } else if i == k {
            assert(s[j] == cl[j - 1]);
        } else {
            assert(s[i] == cl[i]);
        }
    }
    assert forall|l: Seq<char>| lesson_in(cl, l) implies #[trigger] lesson_in(s, l) by {
        let w = choose|w: int| 0 <= w < cl.len() && cl[w].id == l;
        if w < k {
            assert(s[w] == cl[w]);
        } else {
            assert(s[w + 1] == cl[w]);
        }
    }
}

/// Distinct lesson ids drawn from a course's lessons are no more numerous
/// than the lessons.
proof fn lemma_completed_bound(done: Seq<Seq<char>>, lessons: Seq<LessonV>)
    requires
        done.no_duplicates(),
        forall|i: int| 0 <= i < done.len() ==> lesson_in(lessons, #[trigger] done[i]),
        forall|i: int, j: int| 0 <= i < j < lessons.len() ==> lessons[i].id != lessons[j].id,
    ensures
        done.len() <= lessons.len(),
{
    let ids = lessons.map_values(|l: LessonV| l.id);
    assert(ids.len() == lessons.len());
    assert forall|x: Seq<char>| done.to_set().contains(x) implies ids.to_set().contains(x) by {
        assert(done.contains(x));
        let i = choose|i: int| 0 <= i < done.len() && done[i] == x;
        assert(lesson_in(lessons, x));
        let w = choose|w: int| 0 <= w < lessons.len() && lessons[w].id == x;
        assert(ids[w] == x);
        assert(ids.contains(x));
    }
    assert(done.to_set().subset_of(ids.to_set()));
    done.unique_seq_to_set();
    ids.lemma_cardinality_of_set();
    vstd::seq_lib::seq_to_set_is_finite(ids);
    vstd::set_lib::lemma_len_subset(done.to_set(), ids.to_set());
}

/// Floor percentage facts: `c` of `t` parts is at most 100 percent, and is
/// 100 percent exactly when `c == t`.
proof fn lemma_pct(c: int, t: int)
    requires
        0 <= c <= t,
        1 <= t,
    ensures
        0 <= c * 100 / t,
        c * 100 / t <= 100,
        (c * 100 / t == 100) <==> (c == t),
{
    vstd::arithmetic::div_mod::lemma_fundamental_div_mod(c * 100, t);
    vstd::arithmetic::div_mod::lemma_mod_bound(c * 100, t);
    let q = c * 100 / t;
    let r = (c * 100) % t;
    assert(c * 100 == t * q + r);
    assert(0 <= q) by (nonlinear_arith)
        requires
            0 <= c,
            1 <= t,
            c * 100 == t * q + r,
            0 <= r < t,
    ;
    if c == t {
        assert(q == 100) by (nonlinear_arith)
            requires
                c == t,
                1 <= t,
                c * 100 == t * q + r,
                0 <= r < t,
        ;
    } else {
        assert(q < 100) by (nonlinear_arith)
            requires
                0 <= c < t,
                1 <= t,
                c * 100 == t * q + r,
                0 <= r < t,
        ;
    }
}

/// The enrollment after a new lesson completion is recorded: the lesson is
/// added, and progress and completion are recomputed from the course's
/// current lesson count.
pub open spec fn mark_result(e: EnrollmentV, lid: Seq<char>, total: int) -> EnrollmentV {
    EnrollmentV {
        completed_lessons: e.completed_lessons.push(lid),
        progress_percentage: ((e.completed_lessons.len() as int + 1) * 100 / total) as u32,
        completed: e.completed_lessons.len() as int + 1 == total,
        ..e
    }
}

// ---------------------------------------------------------------------------
// Operations: course management.
// ---------------------------------------------------------------------------

impl Store {
    /// Creates a course owned by the caller. Fails `NotFound` when the caller
    /// has no user record, `Unauthorized` when the caller is not a Teacher.
    pub fn create_course(
        &mut self,
        caller: String,
        title: String,
        description: String,
        now: u64,
    ) -> (r: Result<Course, Error>)
        requires
            old(self)@.wf(),
            old(self)@.next_id < u64::MAX,
        ensures
            final (self)@.wf(),
            match r {
                Ok(c) => old(self)@.has_user(caller@) && old(self)@.user_named(caller@).role
                    == UserRole::Teacher && c@ == (CourseV {
                    id: dec_rep(old(self)@.next_id as nat),
                    title: title@,
                    description: description@,
                    instructor_id: caller@,
                    instructor_name: old(self)@.user_named(caller@).name,
                    lessons: Seq::<LessonV>::empty(),
                    created_at: now,
                    updated_at: now,
                }) && final (self)@ == (StoreV {
                    courses: old(self)@.courses.push(c@),
                    next_id: (old(self)@.next_id + 1) as u64,
                    ..old(self)@
                }),
                Err(e) => final (self)@ == old(self)@ && ((e == Error::NotFound && !old(
                    self,
                )@.has_user(caller@)) || (e == Error::Unauthorized && old(self)@.has_user(caller@)
                    && old(self)@.user_named(caller@).role != UserRole::Teacher)),
            },
    {
        let at = match self.find_user(&caller) {
            Some(i) => i,
            None => {
                return Err(Error::NotFound);
            },
        };
        proof {
            assert(self@.users[at as int].id == caller@);
            assert(self@.has_user(caller@));
            let j = user_index_in(self@.users, caller@);
            assert(0 <= j < self@.users.len() && self@.users[j].id == caller@);
            if at as int != j {
                assert(false);
            }
        }
        if !matches!(self.users[at].role, UserRole::Teacher) {
            return Err(Error::Unauthorized);
        }
        let ghost pre = self@;
        let id = u64_to_dec(self.next_id);
        let course = Course {
            id,
            title,
            description,
            instructor_id: caller,
            instructor_name: self.users[at].name.clone(),
            lessons: Vec::new(),
            created_at: now,
            updated_at: now,
        };
        let ret = course.clone();
        self.courses.push(course);
        self.next_id = self.next_id + 1;
        proof {
            let post = self@;
            let mid = StoreV { next_id: post.next_id, ..pre };
            assert(ret@.lessons =~= Seq::<LessonV>::empty());
            assert(post.courses =~= pre.courses.push(ret@));
            assert(post =~= (StoreV {
                courses: pre.courses.push(ret@),
                next_id: (pre.next_id + 1) as u64,
                ..pre
            }));
            lemma_wf_bump(pre, mid);
            assert forall|i: int| 0 <= i < mid.courses.len() implies (#[trigger] mid.courses[i]).id
                != ret@.id by {
                assert(course_ok(pre.courses[i], pre.users, pre.quizzes, pre.next_id as nat));
                lemma_counter_id_fresh(pre.courses[i].id, pre.next_id as nat);
            }
            assert(from_counter_below(ret@.id, mid.next_id as nat)) by {
                assert((pre.next_id as nat) < (mid.next_id as nat) && ret@.id == dec_rep(
                    pre.next_id as nat,
                ));
            }
            assert(is_teacher_in(mid.users, ret@.instructor_id)) by {
                assert(mid.users[at as int] == pre.users[at as int]);
            }
            assert(course_ok(ret@, mid.users, mid.quizzes, mid.next_id as nat));
            lemma_wf_push_course(mid, post, ret@);
        }
        Ok(ret)
    }

    /// Every course, in table order.
    pub fn get_all_courses(&self) -> (r: Vec<Course>)
        ensures
            course_views(r@) == self@.courses,
    {
        let mut r: Vec<Course> = Vec::new();
        let mut i: usize = 0;
        while i < self.courses.len()
            invariant
                i <= self.courses.len(),
                r@.len() == i as int,
                forall|k: int| 0 <= k < i ==> #[trigger] r@[k]@ == self@.courses[k],
            decreases self.courses.len() - i,
        {
            r.push(self.courses[i].clone());
            i = i + 1;
        }
        proof {
            assert(course_views(r@) =~= self@.courses);
        }
        r
    }

    /// The course with the given id, if any.
    pub fn get_course(&self, course_id: String) -> (r: Option<Course>)
        requires
            self@.wf(),
        ensures
            match r {
                Some(c) => self@.has_course(course_id@) && c@ == self@.course_named(course_id@),
                None => !self@.has_course(course_id@),
            },
    {
        match self.find_course(&course_id) {
            Some(i) => {
                let c = self.courses[i].clone();
                proof {
                    assert(self@.courses[i as int].id == course_id@);
                    assert(self@.has_course(course_id@));
                    let j = course_index_in(self@.courses, course_id@);
                    assert(0 <= j < self@.courses.len() && self@.courses[j].id == course_id@);
                    if i as int != j {
                        assert(false);
                    }
                }
                Some(c)
            },
            None => None,
        }
    }

    /// The courses whose title or description contains the query,
    /// case-insensitively, in table order.
    pub fn search_courses(&self, query: String) -> (r: Vec<Course>)
        ensures
            course_views(r@) == matching_courses(self@.courses, lower_of(query@)),
    {
        let lq = to_lowercase(query.as_str());
        let mut r: Vec<Course> = Vec::new();
        let mut i: usize = 0;
        proof {
            assert(self@.courses.take(0) =~= Seq::<CourseV>::empty());
        }
        while i < self.courses.len()
            invariant
                i <= self.courses.len(),
                lq@ == lower_of(query@),
                course_views(r@) == matching_courses(self@.courses.take(i as int), lower_of(query@)),
            decreases self.courses.len() - i,
        {
            let lt = to_lowercase(self.courses[i].title.as_str());
            let ld = to_lowercase(self.courses[i].description.as_str());
            let hit = str_contains(lt.as_str(), lq.as_str()) || str_contains(
                ld.as_str(),
                lq.as_str(),
            );
            proof {
                assert(hit == course_matches(self@.courses[i as int], lower_of(query@)));
            }
            if hit {
                r.push(self.courses[i].clone());
            }
            proof {
                let s1 = self@.courses.take(i as int + 1);
                assert(s1.drop_last() =~= self@.courses.take(i as int));
                assert(s1.last() == self@.courses[i as int]);
                assert(course_views(r@) =~= matching_courses(s1, lower_of(query@)));
            }
            i = i + 1;
        }
        proof {
            assert(self@.courses.take(self@.courses.len() as int) =~= self@.courses);
        }
        r
    }

    /// Adds a lesson to a course, keeping the lessons sorted by `order`.
    /// Only the course's instructor may do so.
    pub fn add_lesson_to_course(
        &mut self,
        caller: String,
        course_id: String,
        title: String,
        content: String,
        video_url: Option<String>,
        order: u32,
        now: u64,
    ) -> (r: Result<(), Error>)
        requires
            old(self)@.wf(),
            old(self)@.next_id < u64::MAX,
        ensures
            final (self)@.wf(),
            match r {
                Ok(_) => ({
                    let c = old(self)@.course_named(course_id@);
                    let lv = LessonV {
                        id: dec_rep(old(self)@.next_id as nat),
                        title: title@,
                        content: content@,
                        video_url: opt_str_view(video_url),
                        quiz_id: None,
                        order: order,
                    };
                    let k = slot_of(c.lessons, order);
                    old(self)@.has_course(course_id@) && c.instructor_id == caller@ && lesson_slot(
                        c.lessons,
                        order,
                        k,
                    ) && final (self)@ == (StoreV {
                        courses: old(self)@.courses.update(
                            course_index_in(old(self)@.courses, course_id@),
                            (CourseV { lessons: c.lessons.insert(k, lv), updated_at: now, ..c }),
                        ),
                        next_id: (old(self)@.next_id + 1) as u64,
                        ..old(self)@
                    })
                }),
                Err(e) => final (self)@ == old(self)@ && ((e == Error::NotFound && !old(
                    self,
                )@.has_course(course_id@)) || (e == Error::Unauthorized && old(self)@.has_course(
                    course_id@,
                ) && old(self)@.course_named(course_id@).instructor_id != caller@)),
            },
    {
        let at = match self.find_course(&course_id) {
            Some(i) => i,
            None => {
                return Err(Error::NotFound);
            },
        };
        proof {
            assert(self@.courses[at as int].id == course_id@);
            assert(self@.has_course(course_id@));
            let j = course_index_in(self@.courses, course_id@);
            assert(0 <= j < self@.courses.len() && self@.courses[j].id == course_id@);
            if at as int != j {
                assert(false);
            }
        }
        if !(self.courses[at].instructor_id == caller) {
            return Err(Error::Unauthorized);
        }
        let ghost pre = self@;
        let ghost cl = pre.courses[at as int].lessons;
        let lesson = Lesson {
            id: u64_to_dec(self.next_id),
            title,
            content,
            video_url,
            quiz_id: None,
            order,
        };
        let ghost lv = lesson@;
        let ghost rawl = self.courses@[at as int].lessons@;
        proof {
            assert(cl =~= lesson_views(rawl));
        }
        let k = Self::lesson_slot_index(&self.courses[at].lessons, order);
        proof {
            assert(lesson_slot(cl, order, k as int));
            assert(k <= rawl.len());
        }
        self.courses[at].lessons.insert(k, lesson);
        self.courses[at].updated_at = now;
        self.next_id = self.next_id + 1;
        proof {
            let post = self@;
            let c2 = CourseV { lessons: cl.insert(k as int, lv), updated_at: now, ..pre.courses[at
                as int] };
            assert(post.courses[at as int].lessons =~= cl.insert(k as int, lv)) by {
                assert(self.courses@[at as int].lessons@ == rawl.insert(k as int, lesson));
                rawl.insert_ensures(k as int, lesson);
                cl.insert_ensures(k as int, lv);
                assert(cl =~= lesson_views(rawl));
            }
            assert(post.courses[at as int] =~= c2);
            assert(post.courses =~= pre.courses.update(at as int, c2));
            let mid = StoreV { next_id: post.next_id, ..pre };
            assert(post =~= (StoreV { courses: pre.courses.update(at as int, c2), ..mid }));
            lemma_wf_bump(pre, mid);
            assert(course_ok(pre.courses[at as int], pre.users, pre.quizzes, pre.next_id as nat));
            assert forall|i: int| 0 <= i < cl.len() implies (#[trigger] cl[i]).id != lv.id by {
                assert(from_counter_below(cl[i].id, pre.next_id as nat));
                lemma_counter_id_fresh(cl[i].id, pre.next_id as nat);
            }
            lemma_lessons_insert(cl, lv, k as int);
            assert(course_ok(c2, mid.users, mid.quizzes, mid.next_id as nat)) by {
                assert(from_counter_below(c2.id, pre.next_id as nat));
                lemma_counter_below_widen(c2.id, pre.next_id as nat, mid.next_id as nat);
                assert(is_teacher_in(mid.users, c2.instructor_id));
                assert forall|i: int| 0 <= i < c2.lessons.len() implies from_counter_below(
                    #[trigger] c2.lessons[i].id,
                    mid.next_id as nat,
                ) by {
                    if c2.lessons[i] == lv {
                        assert((pre.next_id as nat) < (mid.next_id as nat) && lv.id == dec_rep(
                            pre.next_id as nat,
                        ));
                    } else {
                        let w = choose|w: int| 0 <= w < cl.len() && c2.lessons[i] == cl[w];
                        assert(from_counter_below(cl[w].id, pre.next_id as nat));
                        lemma_counter_below_widen(cl[w].id, pre.next_id as nat, mid.next_id as nat);
                    }
                }
                assert forall|i: int|
                    0 <= i < c2.lessons.len() implies (#[trigger] c2.lessons[i].quiz_id matches Some(
                    qid,
                ) ==> quiz_for_lesson_in(mid.quizzes, qid, c2.lessons[i].id)) by {
                    if c2.lessons[i].quiz_id is Some {
                        if c2.lessons[i] == lv {
                            assert(lv.quiz_id is None);
                            assert(false);
                        } else {
                            let w = choose|w: int| 0 <= w < cl.len() && c2.lessons[i] == cl[w];
                            assert(cl[w].quiz_id matches Some(qid) ==> quiz_for_lesson_in(
                                pre.quizzes,
                                qid,
                                cl[w].id,
                            ));
                        }
                    }
                }
            }
            assert forall|l: Seq<char>|
                course_has_lesson(mid.courses[at as int], l) implies #[trigger] course_has_lesson(
                c2,
                l,
            ) by {
                assert(lesson_in(cl, l));
            }
            lemma_wf_update_course(mid, post, at as int, c2);
            lemma_slot_unique(cl, order, k as int, slot_of(cl, order));
        }
        Ok(())
    }
}

// ---------------------------------------------------------------------------
// Operations: enrollment and progress.
// ---------------------------------------------------------------------------

impl Store {
    /// Enrolls the caller (a Student) in a course. Fails `NotFound` when the
    /// caller has no record or the course does not exist, `Unauthorized` when
    /// the caller is not a Student, `AlreadyExists` on a second enrollment.
    pub fn enroll_in_course(&mut self, caller: String, course_id: String, now: u64) -> (r: Result<
        Enrollment,
        Error,
    >)
        requires
            old(self)@.wf(),
        ensures
            final (self)@.wf(),
            match r {
                Ok(en) => old(self)@.has_user(caller@) && old(self)@.user_named(caller@).role
                    == UserRole::Student && old(self)@.has_course(course_id@) && !old(
                    self,
                )@.has_enrollment(caller@, course_id@) && en@ == (EnrollmentV {
                    student_id: caller@,
                    course_id: course_id@,
                    enrolled_at: now,
                    completed_lessons: Seq::<Seq<char>>::empty(),
                    progress_percentage: 0,
                    completed: false,
                    certificate_issued: false,
                }) && final (self)@ == (StoreV {
                    enrollments: old(self)@.enrollments.push(en@),
                    ..old(self)@
                }),
                Err(e) => final (self)@ == old(self)@ && ((e == Error::NotFound && !old(
                    self,
                )@.has_user(caller@)) || (e == Error::Unauthorized && old(self)@.has_user(caller@)
                    && old(self)@.user_named(caller@).role != UserRole::Student) || (e
                    == Error::NotFound && old(self)@.has_user(caller@) && old(self)@.user_named(
                    caller@,
                ).role == UserRole::Student && !old(self)@.has_course(course_id@)) || (e
                    == Error::AlreadyExists && old(self)@.has_user(caller@) && old(
                    self,
                )@.user_named(caller@).role == UserRole::Student && old(self)@.has_course(course_id@)
                    && old(self)@.has_enrollment(caller@, course_id@))),
            },
    {
        let uat = match self.find_user(&caller) {
            Some(i) => i,
            None => {
                return Err(Error::NotFound);
            },
        };
        proof {
            assert(self@.users[uat as int].id == caller@);
            assert(self@.has_user(caller@));
            let j = user_index_in(self@.users, caller@);
            assert(0 <= j < self@.users.len() && self@.users[j].id == caller@);
            if uat as int != j {
                assert(false);
            }
        }
        if !matches!(self.users[uat].role, UserRole::Student) {
            return Err(Error::Unauthorized);
        }
        let cat = match self.find_course(&course_id) {
            Some(i) => i,
            None => {
                return Err(Error::NotFound);
            },
        };
        if self.find_enrollment(&caller, &course_id).is_some() {
            return Err(Error::AlreadyExists);
        }
        let ghost pre = self@;
        let enrollment = Enrollment {
            student_id: caller,
            course_id,
            enrolled_at: now,
            completed_lessons: Vec::new(),
            progress_percentage: 0,
            completed: false,
            certificate_issued: false,
        };
        let ret = enrollment.clone();
        self.enrollments.push(enrollment);
        proof {
            let post = self@;
            assert(ret@.completed_lessons =~= Seq::<Seq<char>>::empty());
            assert(post.enrollments =~= pre.enrollments.push(ret@));
            assert(post =~= (StoreV { enrollments: pre.enrollments.push(ret@), ..pre }));
            assert(enrollment_ok(ret@, pre.users, pre.courses, pre.certificates)) by {
                assert(is_student_in(pre.users, caller@)) by {
                    assert(pre.users[uat as int].id == caller@ && pre.users[uat as int].role
                        == UserRole::Student);
                }
                assert(course_covers(pre.courses, course_id@, ret@.completed_lessons)) by {
                    assert(pre.courses[cat as int].id == course_id@);
                }
            }
            lemma_wf_push_enrollment(pre, post, ret@);
        }
        Ok(ret)
    }

    /// The caller's enrollments, in table order.
    pub fn get_student_enrollments(&self, caller: String) -> (r: Vec<Enrollment>)
        ensures
            enrollment_views(r@) == enrollments_of(self@.enrollments, caller@),
    {
        let mut r: Vec<Enrollment> = Vec::new();
        let mut i: usize = 0;
        proof {
            assert(self@.enrollments.take(0) =~= Seq::<EnrollmentV>::empty());
        }
        while i < self.enrollments.len()
            invariant
                i <= self.enrollments.len(),
                enrollment_views(r@) == enrollments_of(self@.enrollments.take(i as int), caller@),
            decreases self.enrollments.len() - i,
        {
            if self.enrollments[i].student_id == caller {
                r.push(self.enrollments[i].clone());
            }
            proof {
                let s1 = self@.enrollments.take(i as int + 1);
                assert(s1.drop_last() =~= self@.enrollments.take(i as int));
                assert(s1.last() == self@.enrollments[i as int]);
                assert(enrollment_views(r@) =~= enrollments_of(s1, caller@));
            }
            i = i + 1;
        }
        proof {
            assert(self@.enrollments.take(self@.enrollments.len() as int) =~= self@.enrollments);
        }
        r
    }

    /// Records a lesson completion for the caller's enrollment and recomputes
    /// progress and completion from the course's current lesson count.
    /// Re-marking an already completed lesson changes nothing. Fails
    /// `NotFound` when the enrollment is absent or the lesson is not a lesson
    /// of the course.
    pub fn mark_lesson_completed(&mut self, caller: String, course_id: String, lesson_id: String) -> (r:
        Result<(), Error>)
        requires
            old(self)@.wf(),
        ensures
            final (self)@.wf(),
            match r {
                Ok(_) => ({
                    let e = old(self)@.enrollment_named(caller@, course_id@);
                    let c = old(self)@.course_named(course_id@);
                    old(self)@.has_enrollment(caller@, course_id@) && course_has_lesson(
                        c,
                        lesson_id@,
                    ) && if e.completed_lessons.contains(lesson_id@) {
                        final (self)@ == old(self)@
                    } else {
                        final (self)@ == (StoreV {
                            enrollments: old(self)@.enrollments.update(
                                enrollment_index_in(old(self)@.enrollments, caller@, course_id@),
                                mark_result(e, lesson_id@, c.lessons.len() as int),
                            ),
                            ..old(self)@
                        })
                    }
                }),
                Err(e) => e == Error::NotFound && final (self)@ == old(self)@ && !(old(
                    self,
                )@.has_enrollment(caller@, course_id@) && course_has_lesson(
                    old(self)@.course_named(course_id@),
                    lesson_id@,
                )),
            },
    {
        let eat = match self.find_enrollment(&caller, &course_id) {
            Some(i) => i,
            None => {
                return Err(Error::NotFound);
            },
        };
        proof {
            assert(self@.enrollments[eat as int].student_id == caller@);
            assert(self@.has_enrollment(caller@, course_id@));
            let j = enrollment_index_in(self@.enrollments, caller@, course_id@);
            assert(0 <= j < self@.enrollments.len() && self@.enrollments[j].student_id == caller@
                && self@.enrollments[j].course_id == course_id@);
            if eat as int != j {
                assert(false);
            }
            assert(enrollment_ok(
                self@.enrollments[eat as int],
                self@.users,
                self@.courses,
                self@.certificates,
            ));
        }
        let cat = match self.find_course(&course_id) {
            Some(i) => i,
            None => {
                proof {
                    let e = self@.enrollments[eat as int];
                    let w = choose|w: int|
                        0 <= w < self@.courses.len() && self@.courses[w].id == e.course_id && (
                        forall|j: int|
                            0 <= j < e.completed_lessons.len() ==> course_has_lesson(
                                self@.courses[w],
                                #[trigger] e.completed_lessons[j],
                            ));
                    assert(0 <= w < self@.courses.len() && self@.courses[w].id == course_id@);
                    assert(self@.has_course(course_id@));
                    assert(false);
                }
                return Err(Error::NotFound);
            },
        };
        proof {
            assert(self@.courses[cat as int].id == course_id@);
            let j = course_index_in(self@.courses, course_id@);
            assert(0 <= j < self@.courses.len() && self@.courses[j].id == course_id@);
            if cat as int != j {
                assert(false);
            }
            let e = self@.enrollments[eat as int];
            let w = choose|w: int|
                0 <= w < self@.courses.len() && self@.courses[w].id == e.course_id && (forall|
                    j: int,
                |
                    0 <= j < e.completed_lessons.len() ==> course_has_lesson(
                        self@.courses[w],
                        #[trigger] e.completed_lessons[j],
                    ));
            assert(0 <= w < self@.courses.len() && self@.courses[w].id == course_id@);
            if w != cat as int {
                assert(false);
            }
            assert forall|j: int| 0 <= j < e.completed_lessons.len() implies course_has_lesson(
                self@.courses[cat as int],
                #[trigger] e.completed_lessons[j],
            ) by {}
        }
        let ghost pre = self@;
        let ghost cl = pre.courses[cat as int].lessons;
        let ghost clraw = self.courses@[cat as int].lessons@;
        proof {
            assert(cl =~= lesson_views(clraw));
        }
        // the lesson must be a lesson of the course
        match Self::find_lesson(&self.courses[cat].lessons, &lesson_id) {
            Some(li) => {
                proof {
                    assert(cl[li as int].id == lesson_id@);
                    assert(course_has_lesson(pre.courses[cat as int], lesson_id@));
                }
            },
            None => {
                proof {
                    assert(!course_has_lesson(pre.courses[cat as int], lesson_id@));
                }
                return Err(Error::NotFound);
            },
        }
        // already recorded: nothing to do
        let ghost done0 = pre.enrollments[eat as int].completed_lessons;
        let ghost draw = self.enrollments@[eat as int].completed_lessons@;
        proof {
            assert(done0 =~= draw.map_values(|s: String| s@));
        }
        if Self::contains_string(&self.enrollments[eat].completed_lessons, &lesson_id) {
            proof {
                assert(done0.contains(lesson_id@));
            }
            return Ok(());
        }
        proof {
            assert(!done0.contains(lesson_id@));
        }
        let total = self.courses[cat].lessons.len();
        self.enrollments[eat].completed_lessons.push(lesson_id);
        let newcnt = self.enrollments[eat].completed_lessons.len();
        proof {
            assert(total >= 1);
            let done1 = done0.push(lesson_id@);
            assert forall|i: int, j: int| 0 <= i < j < done1.len() implies done1[i] != done1[j] by {
                if j < done0.len() {
                    assert(done0[i] != done0[j]);
                } else {
                    assert(done1[j] == lesson_id@);
                    assert(!done0.contains(lesson_id@));
                    if done0[i] == lesson_id@ {
                        assert(done0.contains(lesson_id@));
                    }
                }
            }
            assert forall|i: int| 0 <= i < done1.len() implies lesson_in(
                cl,
                #[trigger] done1[i],
            ) by {
                if i < done0.len() {
                    assert(course_has_lesson(pre.courses[cat as int], done0[i]));
                } else {
                    assert(done1[i] == lesson_id@);
                    assert(course_has_lesson(pre.courses[cat as int], lesson_id@));
                }
            }
            assert(course_ok(pre.courses[cat as int], pre.users, pre.quizzes, pre.next_id as nat));
            lemma_completed_bound(done1, cl);
        }
        let pct128: u128 = (newcnt as u128) * 100 / (total as u128);
        proof {
            lemma_pct(newcnt as int, total as int);
            assert(pct128 as int == (newcnt as int) * 100 / (total as int));
        }
        self.enrollments[eat].progress_percentage = pct128 as u32;
        self.enrollments[eat].completed = newcnt == total;
        proof {
            let post = self@;
            let e2 = mark_result(
                pre.enrollments[eat as int],
                lesson_id@,
                pre.courses[cat as int].lessons.len() as int,
            );
            assert(post.enrollments[eat as int].completed_lessons =~= done0.push(lesson_id@));
            assert(post.enrollments[eat as int] =~= e2);
            assert(post.enrollments =~= pre.enrollments.update(eat as int, e2));
            assert(post =~= (StoreV { enrollments: pre.enrollments.update(eat as int, e2), ..pre }));
            assert(enrollment_ok(e2, pre.users, pre.courses, pre.certificates)) by {
                assert(e2.progress_percentage <= 100);
                assert(e2.completed <==> e2.progress_percentage == 100) by {
                    lemma_pct(newcnt as int, total as int);
                }
                assert(e2.completed_lessons.no_duplicates());
                assert(course_covers(pre.courses, e2.course_id, e2.completed_lessons)) by {
                    assert forall|j: int|
                        0 <= j < e2.completed_lessons.len() implies course_has_lesson(
                        pre.courses[cat as int],
                        #[trigger] e2.completed_lessons[j],
                    ) by {
                        if j < done0.len() {
                            assert(course_has_lesson(pre.courses[cat as int], done0[j]));
                        }
                    }
                }
            }
            lemma_wf_update_enrollment(pre, post, eat as int, e2);
        }
        Ok(())
    }
}

// ---------------------------------------------------------------------------
// Operations: quizzes and grading.
// ---------------------------------------------------------------------------

/// The index of the lesson with the given id (meaningful when `lesson_in`).
pub open spec fn lesson_index_in(lessons: Seq<LessonV>, id: Seq<char>) -> int {
    choose|i: int| 0 <= i < lessons.len() && lessons[i].id == id
}

/// The text a certificate's fingerprint is computed from: student name,
/// course title, instructor name and issuance time, joined by underscores.
pub open spec fn cert_payload(
    student: Seq<char>,
    title: Seq<char>,
    instructor: Seq<char>,
    now: u64,
) -> Seq<char> {
    student + "_"@ + title + "_"@ + instructor + "_"@ + dec_rep(now as nat)
}

/// Replacing a discussion by a well-formed one with the same id keeps the
/// store well-formed.
proof fn lemma_wf_update_discussion(pre: StoreV, post: StoreV, at: int, d: DiscussionV)
    requires
        pre.wf(),
        0 <= at < pre.discussions.len(),
        d.id == pre.discussions[at].id,
        post.users == pre.users,
        post.courses == pre.courses,
        post.quizzes == pre.quizzes,
        post.enrollments == pre.enrollments,
        post.discussions == pre.discussions.update(at, d),
        post.certificates == pre.certificates,
        post.next_id == pre.next_id,
        discussion_ok(d, pre.users, pre.courses, pre.next_id as nat),
    ensures
        post.wf(),
{
    assert forall|i: int, j: int| 0 <= i < j < post.users.len() implies post.users[i].id
        != post.users[j].id by {
        assert(pre.users[i].id != pre.users[j].id);
    }
    assert forall|i: int, j: int| 0 <= i < j < post.courses.len() implies post.courses[i].id
        != post.courses[j].id by {
        assert(pre.courses[i].id != pre.courses[j].id);
    }
    assert forall|i: int| 0 <= i < post.courses.len() implies course_ok(
        #[trigger] post.courses[i],
        post.users,
        post.quizzes,
        post.next_id as nat,
    ) by {
        assert(course_ok(pre.courses[i], pre.users, pre.quizzes, pre.next_id as nat));
    }
    assert forall|i: int, j: int| 0 <= i < j < post.quizzes.len() implies post.quizzes[i].id
        != post.quizzes[j].id by {
        assert(pre.quizzes[i].id != pre.quizzes[j].id);
    }
    assert forall|i: int| 0 <= i < post.quizzes.len() implies quiz_ok(
        #[trigger] post.quizzes[i],
        post.courses,
        post.next_id as nat,
    ) by {
        assert(quiz_ok(pre.quizzes[i], pre.courses, pre.next_id as nat));
    }
    assert forall|i: int, j: int| 0 <= i < j < post.enrollments.len() implies !(
    post.enrollments[i].student_id == post.enrollments[j].student_id
        && post.enrollments[i].course_id == post.enrollments[j].course_id) by {
        assert(!(pre.enrollments[i].student_id == pre.enrollments[j].student_id
            && pre.enrollments[i].course_id == pre.enrollments[j].course_id));
    }
    assert forall|i: int| 0 <= i < post.enrollments.len() implies enrollment_ok(
        #[trigger] post.enrollments[i],
        post.users,
        post.courses,
        post.certificates,
    ) by {
        assert(enrollment_ok(pre.enrollments[i], pre.users, pre.courses, pre.certificates));
    }
    assert forall|i: int, j: int| 0 <= i < j < post.discussions.len() implies post.discussions[i].id
        != post.discussions[j].id by {
        assert(post.discussions[i].id == pre.discussions[i].id);
        assert(post.discussions[j].id == pre.discussions[j].id);
        assert(pre.discussions[i].id != pre.discussions[j].id);
    }
    assert forall|i: int| 0 <= i < post.discussions.len() implies discussion_ok(
        #[trigger] post.discussions[i],
        post.users,
        post.courses,
        post.next_id as nat,
    ) by {
        if i != at {
            assert(post.discussions[i] == pre.discussions[i]);
            assert(discussion_ok(pre.discussions[i], pre.users, pre.courses, pre.next_id as nat));
        } else {
            assert(post.discussions[i] == d);
        }
    }
    assert forall|i: int, j: int| 0 <= i < j < post.certificates.len() implies !(
    post.certificates[i].student_id == post.certificates[j].student_id
        && post.certificates[i].course_id == post.certificates[j].course_id) by {
        assert(!(pre.certificates[i].student_id == pre.certificates[j].student_id
            && pre.certificates[i].course_id == pre.certificates[j].course_id));
    }
    assert forall|i: int| 0 <= i < post.certificates.len() implies enrollment_flagged_in(
        post.enrollments,
        (#[trigger] post.certificates[i]).student_id,
        post.certificates[i].course_id,
    ) by {
        assert(enrollment_flagged_in(
            pre.enrollments,
            pre.certificates[i].student_id,
            pre.certificates[i].course_id,
        ));
    }
}

/// Recording a certificate and setting the enrollment's flag, together,
/// keep the store well-formed.
proof fn lemma_wf_issue(pre: StoreV, post: StoreV, at: int, cert: CertificateV)
    requires
        pre.wf(),
        0 <= at < pre.enrollments.len(),
        cert.student_id == pre.enrollments[at].student_id,
        cert.course_id == pre.enrollments[at].course_id,
        !pre.enrollments[at].certificate_issued,
        post.users == pre.users,
        post.courses == pre.courses,
        post.quizzes == pre.quizzes,
        post.enrollments == pre.enrollments.update(
            at,
            (EnrollmentV { certificate_issued: true, ..pre.enrollments[at] }),
        ),
        post.discussions == pre.discussions,
        post.certificates == pre.certificates.push(cert),
        post.next_id == pre.next_id,
    ensures
        post.wf(),
{
    let n = pre.certificates.len() as int;
    let e2 = EnrollmentV { certificate_issued: true, ..pre.enrollments[at] };
    assert forall|i: int, j: int| 0 <= i < j < post.users.len() implies post.users[i].id
        != post.users[j].id by {
        assert(pre.users[i].id != pre.users[j].id);
    }
    assert forall|i: int, j: int| 0 <= i < j < post.courses.len() implies post.courses[i].id
        != post.courses[j].id by {
        assert(pre.courses[i].id != pre.courses[j].id);
    }
    assert forall|i: int| 0 <= i < post.courses.len() implies course_ok(
        #[trigger] post.courses[i],
        post.users,
        post.quizzes,
        post.next_id as nat,
    ) by {
        assert(course_ok(pre.courses[i], pre.users, pre.quizzes, pre.next_id as nat));
    }
    assert forall|i: int, j: int| 0 <= i < j < post.quizzes.len() implies post.quizzes[i].id
        != post.quizzes[j].id by {
        assert(pre.quizzes[i].id != pre.quizzes[j].id);
    }
    assert forall|i: int| 0 <= i < post.quizzes.len() implies quiz_ok(
        #[trigger] post.quizzes[i],
        post.courses,
        post.next_id as nat,
    ) by {
        assert(quiz_ok(pre.quizzes[i], pre.courses, pre.next_id as nat));
    }
    assert forall|i: int, j: int| 0 <= i < j < post.enrollments.len() implies !(
    post.enrollments[i].student_id == post.enrollments[j].student_id
        && post.enrollments[i].course_id == post.enrollments[j].course_id) by {
        assert(post.enrollments[i].student_id == pre.enrollments[i].student_id
            && post.enrollments[i].course_id == pre.enrollments[i].course_id);
        assert(post.enrollments[j].student_id == pre.enrollments[j].student_id
            && post.enrollments[j].course_id == pre.enrollments[j].course_id);
        assert(!(pre.enrollments[i].student_id == pre.enrollments[j].student_id
            && pre.enrollments[i].course_id == pre.enrollments[j].course_id));
    }
    assert forall|i: int| 0 <= i < post.enrollments.len() implies enrollment_ok(
        #[trigger] post.enrollments[i],
        post.users,
        post.courses,
        post.certificates,
    ) by {
        let e = pre.enrollments[i];
        assert(enrollment_ok(e, pre.users, pre.courses, pre.certificates));
        if i != at {
            assert(post.enrollments[i] == e);
            if e.certificate_issued {
                let k = choose|k: int|
                    0 <= k < pre.certificates.len() && pre.certificates[k].student_id
                        == e.student_id && pre.certificates[k].course_id == e.course_id;
                assert(post.certificates[k] == pre.certificates[k]);
            }
        } else {
            assert(post.enrollments[i] == e2);
            assert(post.certificates[n] == cert);
            assert(cert_exists_in(post.certificates, e2.student_id, e2.course_id));
        }
    }
    assert forall|i: int, j: int| 0 <= i < j < post.discussions.len() implies post.discussions[i].id
        != post.discussions[j].id by {
        assert(pre.discussions[i].id != pre.discussions[j].id);
    }
    assert forall|i: int| 0 <= i < post.discussions.len() implies discussion_ok(
        #[trigger] post.discussions[i],
        post.users,
        post.courses,
        post.next_id as nat,
    ) by {
        assert(discussion_ok(pre.discussions[i], pre.users, pre.courses, pre.next_id as nat));
    }
    assert forall|i: int, j: int| 0 <= i < j < post.certificates.len() implies !(
    post.certificates[i].student_id == post.certificates[j].student_id
        && post.certificates[i].course_id == post.certificates[j].course_id) by {
        if j < n {
            assert(!(pre.certificates[i].student_id == pre.certificates[j].student_id
                && pre.certificates[i].course_id == pre.certificates[j].course_id));
        } else {
            assert(post.certificates[j] == cert);
            if pre.certificates[i].student_id == cert.student_id && pre.certificates[i].course_id
                == cert.course_id {
                assert(enrollment_flagged_in(
                    pre.enrollments,
                    pre.certificates[i].student_id,
                    pre.certificates[i].course_id,
                ));
                let k = choose|k: int|
                    0 <= k < pre.enrollments.len() && pre.enrollments[k].student_id
                        == cert.student_id && pre.enrollments[k].course_id == cert.course_id
                        && pre.enrollments[k].certificate_issued;
                if k != at {
                    assert(!(pre.enrollments[k].student_id == pre.enrollments[at].student_id
                        && pre.enrollments[k].course_id == pre.enrollments[at].course_id));
                }
                assert(false);
            }
        }
    }
    assert forall|i: int| 0 <= i < post.certificates.len() implies enrollment_flagged_in(
        post.enrollments,
        (#[trigger] post.certificates[i]).student_id,
        post.certificates[i].course_id,
    ) by {
        if i < n {
            assert(enrollment_flagged_in(
                pre.enrollments,
                pre.certificates[i].student_id,
                pre.certificates[i].course_id,
            ));
            let k = choose|k: int|
                0 <= k < pre.enrollments.len() && pre.enrollments[k].student_id
                    == pre.certificates[i].student_id && pre.enrollments[k].course_id
                    == pre.certificates[i].course_id && pre.enrollments[k].certificate_issued;
            if k != at {
                assert(post.enrollments[k] == pre.enrollments[k]);
            } else {
                assert(post.enrollments[at] == e2);
            }
        } else {
            assert(post.certificates[i] == cert);
            assert(post.enrollments[at] == e2);
        }
    }
}

proof fn lemma_points_mono(qs: Seq<QuestionV>, a: int, b: int)
    requires
        a <= b,
    ensures
        points_upto(qs, a) <= points_upto(qs, b),
    decreases b - a,
{
    if a < b {
        lemma_points_mono(qs, a, b - 1);
    }
}

impl Store {
    fn compute_score(questions: &Vec<Question>, answers: &Vec<u32>) -> (score: u32)
        requires
            answers@.len() == questions@.len(),
            total_points(question_views(questions@)) <= u32::MAX,
        ensures
            score as int == quiz_score(question_views(questions@), answers@),
    {
        let ghost qs = question_views(questions@);
        let mut score: u32 = 0;
        let mut i: usize = 0;
        while i < questions.len()
            invariant
                answers@.len() == questions@.len(),
                total_points(qs) <= u32::MAX,
                qs == question_views(questions@),
                i <= qs.len(),
                score as int == score_upto(qs, answers@, i as int),
            decreases questions@.len() - i,
        {
            proof {
                assert(qs[i as int] == questions@[i as int]@);
                lemma_score_bounds(qs, answers@, i as int + 1);
                lemma_points_mono(qs, i as int + 1, qs.len() as int);
            }
            if answers[i] == questions[i].correct_answer {
                score = score + questions[i].points;
            }
            proof {
                assert(score as int == score_upto(qs, answers@, i as int + 1));
            }
            i = i + 1;
        }
        score
    }

    /// The quiz with the given id, if any.
    pub fn get_quiz(&self, quiz_id: String) -> (r: Option<Quiz>)
        requires
            self@.wf(),
        ensures
            match r {
                Some(q) => self@.has_quiz(quiz_id@) && q@ == self@.quiz_named(quiz_id@),
                None => !self@.has_quiz(quiz_id@),
            },
    {
        match self.find_quiz(&quiz_id) {
            Some(i) => {
                let q = self.quizzes[i].clone();
                proof {
                    assert(self@.quizzes[i as int].id == quiz_id@);
                    assert(self@.has_quiz(quiz_id@));
                    let j = quiz_index_in(self@.quizzes, quiz_id@);
                    assert(0 <= j < self@.quizzes.len() && self@.quizzes[j].id == quiz_id@);
                    if i as int != j {
                        assert(false);
                    }
                }
                Some(q)
            },
            None => None,
        }
    }

    /// Creates a quiz on a course, owned by the course's instructor, and
    /// attaches it to the lesson with the given id when that lesson exists.
    pub fn create_quiz(
        &mut self,
        caller: String,
        course_id: String,
        lesson_id: String,
        title: String,
        questions: Vec<Question>,
        passing_score: u32,
        now: u64,
    ) -> (r: Result<Quiz, Error>)
        requires
            old(self)@.wf(),
            old(self)@.next_id < u64::MAX,
            total_points(question_views(questions@)) <= u32::MAX,
        ensures
            final (self)@.wf(),
            match r {
                Ok(q) => ({
                    let pre = old(self)@;
                    let c = pre.course_named(course_id@);
                    let li = lesson_index_in(c.lessons, lesson_id@);
                    pre.has_course(course_id@) && c.instructor_id == caller@ && q@ == (QuizV {
                        id: dec_rep(pre.next_id as nat),
                        course_id: course_id@,
                        lesson_id: lesson_id@,
                        title: title@,
                        questions: question_views(questions@),
                        passing_score: passing_score,
                        created_at: now,
                    }) && if lesson_in(c.lessons, lesson_id@) {
                        final (self)@ == (StoreV {
                            quizzes: pre.quizzes.push(q@),
                            courses: pre.courses.update(
                                course_index_in(pre.courses, course_id@),
                                (CourseV {
                                    lessons: c.lessons.update(
                                        li,
                                        (LessonV { quiz_id: Some(q@.id), ..c.lessons[li] }),
                                    ),
                                    ..c
                                }),
                            ),
                            next_id: (pre.next_id + 1) as u64,
                            ..pre
                        })
                    } else {
                        final (self)@ == (StoreV {
                            quizzes: pre.quizzes.push(q@),
                            next_id: (pre.next_id + 1) as u64,
                            ..pre
                        })
                    }
                }),
                Err(e) => final (self)@ == old(self)@ && ((e == Error::NotFound && !old(
                    self,
                )@.has_course(course_id@)) || (e == Error::Unauthorized && old(self)@.has_course(
                    course_id@,
                ) && old(self)@.course_named(course_id@).instructor_id != caller@)),
            },
    {
        let cat = match self.find_course(&course_id) {
            Some(i) => i,
            None => {
                return Err(Error::NotFound);
            },
        };
        proof {
            assert(self@.courses[cat as int].id == course_id@);
            assert(self@.has_course(course_id@));
            let j = course_index_in(self@.courses, course_id@);
            assert(0 <= j < self@.courses.len() && self@.courses[j].id == course_id@);
            if cat as int != j {
                assert(false);
            }
        }
        if !(self.courses[cat].instructor_id == caller) {
            return Err(Error::Unauthorized);
        }
        let ghost pre = self@;
        let qid = u64_to_dec(self.next_id);
        let qid2 = qid.clone();
        let quiz = Quiz {
            id: qid,
            course_id,
            lesson_id: lesson_id.clone(),
            title,
            questions,
            passing_score,
            created_at: now,
        };
        let ret = quiz.clone();
        self.quizzes.push(quiz);
        self.next_id = self.next_id + 1;
        let ghost mid2 = self@;
        proof {
            let mid = StoreV { next_id: mid2.next_id, ..pre };
            assert(mid2.quizzes =~= pre.quizzes.push(ret@));
            assert(mid2 =~= (StoreV {
                quizzes: pre.quizzes.push(ret@),
                next_id: (pre.next_id + 1) as u64,
                ..pre
            }));
            lemma_wf_bump(pre, mid);
            assert forall|i: int| 0 <= i < mid.quizzes.len() implies (#[trigger] mid.quizzes[i]).id
                != ret@.id by {
                assert(quiz_ok(pre.quizzes[i], pre.courses, pre.next_id as nat));
                lemma_counter_id_fresh(pre.quizzes[i].id, pre.next_id as nat);
            }
            assert(quiz_ok(ret@, mid.courses, mid.next_id as nat)) by {
                assert((pre.next_id as nat) < (mid.next_id as nat) && ret@.id == dec_rep(
                    pre.next_id as nat,
                ));
                assert(mid.courses[cat as int].id == course_id@);
            }
            lemma_wf_push_quiz(mid, mid2, ret@);
        }
        let ghost cl = mid2.courses[cat as int].lessons;
        let ghost clraw = self.courses@[cat as int].lessons@;
        proof {
            assert(cl =~= lesson_views(clraw));
            assert(cl == pre.course_named(course_id@).lessons);
        }
        match Self::find_lesson(&self.courses[cat].lessons, &lesson_id) {
            Some(li) => {
                proof {
                    assert(cl[li as int].id == lesson_id@);
                    assert(lesson_in(cl, lesson_id@));
                    let j = lesson_index_in(cl, lesson_id@);
                    assert(0 <= j < cl.len() && cl[j].id == lesson_id@);
                    assert(course_ok(
                        mid2.courses[cat as int],
                        mid2.users,
                        mid2.quizzes,
                        mid2.next_id as nat,
                    ));
                    if li as int != j {
                        assert(false);
                    }
                }
                let mut l_new = self.courses[cat].lessons[li].clone();
                l_new.quiz_id = Some(qid2);
                let ghost lv2 = l_new@;
                self.courses[cat].lessons[li] = l_new;
                proof {
                    let post = self@;
                    let c2 = CourseV {
                        lessons: cl.update(li as int, lv2),
                        ..mid2.courses[cat as int]
                    };
                    assert(lv2 == (LessonV { quiz_id: Some(ret@.id), ..cl[li as int] }));
                    assert(post.courses[cat as int].lessons =~= cl.update(li as int, lv2));
                    assert(post.courses[cat as int] =~= c2);
                    assert(post.courses =~= mid2.courses.update(cat as int, c2));
                    assert(post =~= (StoreV { courses: mid2.courses.update(cat as int, c2), ..mid2
                    }));
                    assert(course_ok(c2, mid2.users, mid2.quizzes, mid2.next_id as nat)) by {
                        assert(course_ok(
                            mid2.courses[cat as int],
                            mid2.users,
                            mid2.quizzes,
                            mid2.next_id as nat,
                        ));
                        assert forall|a: int, b: int| 0 <= a <= b < c2.lessons.len() implies
                            c2.lessons[a].order <= c2.lessons[b].order by {
                            assert(c2.lessons[a].order == cl[a].order);
                            assert(c2.lessons[b].order == cl[b].order);
                        }
                        assert forall|a: int, b: int| 0 <= a < b < c2.lessons.len() implies
                            c2.lessons[a].id != c2.lessons[b].id by {
                            assert(c2.lessons[a].id == cl[a].id);
                            assert(c2.lessons[b].id == cl[b].id);
                        }
                        assert forall|a: int| 0 <= a < c2.lessons.len() implies from_counter_below(
                            #[trigger] c2.lessons[a].id,
                            mid2.next_id as nat,
                        ) by {
                            assert(c2.lessons[a].id == cl[a].id);
                            assert(from_counter_below(cl[a].id, mid2.next_id as nat));
                        }
                        assert forall|a: int|
                            0 <= a < c2.lessons.len() implies (#[trigger] c2.lessons[a].quiz_id
                            matches Some(qd) ==> quiz_for_lesson_in(
                            mid2.quizzes,
                            qd,
                            c2.lessons[a].id,
                        )) by {
                            if a != li as int {
                                assert(c2.lessons[a] == cl[a]);
                                assert(cl[a].quiz_id matches Some(qd) ==> quiz_for_lesson_in(
                                    mid2.quizzes,
                                    qd,
                                    cl[a].id,
                                ));
                            } else {
                                assert(c2.lessons[a] == lv2);
                                assert(mid2.quizzes[pre.quizzes.len() as int] == ret@);
                                assert(ret@.lesson_id == lesson_id@ && cl[li as int].id
                                    == lesson_id@);
                                assert(quiz_for_lesson_in(mid2.quizzes, ret@.id, lv2.id));
                            }
                        }
                    }
                    assert forall|l: Seq<char>|
                        course_has_lesson(mid2.courses[cat as int], l) implies #[trigger] course_has_lesson(
                        c2,
                        l,
                    ) by {
                        let w = choose|w: int| 0 <= w < cl.len() && cl[w].id == l;
                        assert(c2.lessons[w].id == cl[w].id);
                    }
                    lemma_wf_update_course(mid2, post, cat as int, c2);
                }
            },
            None => {
                proof {
                    assert(!lesson_in(cl, lesson_id@));
                }
            },
        }
        Ok(ret)
    }

    /// Grades an attempt against the quiz's questions and appends it to the
    /// attempt log. Fails `NotFound` when the quiz is absent, `Validation`
    /// when the number of answers differs from the number of questions.
    pub fn attempt_quiz(&mut self, caller: String, quiz_id: String, answers: Vec<u32>, now: u64) -> (r:
        Result<QuizAttempt, Error>)
        requires
            old(self)@.wf(),
        ensures
            final (self)@.wf(),
            match r {
                Ok(a) => ({
                    let pre = old(self)@;
                    let qz = pre.quiz_named(quiz_id@);
                    pre.has_quiz(quiz_id@) && answers@.len() == qz.questions.len() && a@
                        == (QuizAttemptV {
                        student_id: caller@,
                        quiz_id: quiz_id@,
                        answers: answers@,
                        score: quiz_score(qz.questions, answers@) as u32,
                        passed: quiz_score(qz.questions, answers@) >= qz.passing_score,
                        attempted_at: now,
                    }) && final (self)@ == (StoreV {
                        quiz_attempts: pre.quiz_attempts.push(a@),
                        ..pre
                    })
                }),
                Err(e) => final (self)@ == old(self)@ && ((e == Error::NotFound && !old(
                    self,
                )@.has_quiz(quiz_id@)) || (e == Error::Validation && old(self)@.has_quiz(quiz_id@)
                    && answers@.len() != old(self)@.quiz_named(quiz_id@).questions.len())),
            },
    {
        let qat = match self.find_quiz(&quiz_id) {
            Some(i) => i,
            None => {
                return Err(Error::NotFound);
            },
        };
        proof {
            assert(self@.quizzes[qat as int].id == quiz_id@);
            assert(self@.has_quiz(quiz_id@));
            let j = quiz_index_in(self@.quizzes, quiz_id@);
            assert(0 <= j < self@.quizzes.len() && self@.quizzes[j].id == quiz_id@);
            if qat as int != j {
                assert(false);
            }
            assert(quiz_ok(self@.quizzes[qat as int], self@.courses, self@.next_id as nat));
            assert(self@.quizzes[qat as int].questions =~= question_views(
                self.quizzes@[qat as int].questions@,
            ));
        }
        if answers.len() != self.quizzes[qat].questions.len() {
            return Err(Error::Validation);
        }
        let ghost pre = self@;
        let score = Self::compute_score(&self.quizzes[qat].questions, &answers);
        let passed = score >= self.quizzes[qat].passing_score;
        let attempt = QuizAttempt {
            student_id: caller,
            quiz_id,
            answers,
            score,
            passed,
            attempted_at: now,
        };
        let ret = attempt.clone();
        self.quiz_attempts.push(attempt);
        proof {
            let post = self@;
            assert(post.quiz_attempts =~= pre.quiz_attempts.push(ret@));
            assert(post =~= (StoreV { quiz_attempts: pre.quiz_attempts.push(ret@), ..pre }));
            lemma_wf_push_attempt(pre, post);
        }
        Ok(ret)
    }
}

// ---------------------------------------------------------------------------
// Operations: discussions.
// ---------------------------------------------------------------------------

impl Store {
    /// Creates a discussion on a course, owned by any existing user. Fails
    /// `NotFound` when the caller has no record or the course is absent.
    pub fn create_discussion(
        &mut self,
        caller: String,
        course_id: String,
        title: String,
        content: String,
        now: u64,
    ) -> (r: Result<Discussion, Error>)
        requires
            old(self)@.wf(),
            old(self)@.next_id < u64::MAX,
        ensures
            final (self)@.wf(),
            match r {
                Ok(d) => old(self)@.has_user(caller@) && old(self)@.has_course(course_id@) && d@
                    == (DiscussionV {
                    id: dec_rep(old(self)@.next_id as nat),
                    course_id: course_id@,
                    author_id: caller@,
                    author_name: old(self)@.user_named(caller@).name,
                    title: title@,
                    content: content@,
                    replies: Seq::<ReplyV>::empty(),
                    created_at: now,
                }) && final (self)@ == (StoreV {
                    discussions: old(self)@.discussions.push(d@),
                    next_id: (old(self)@.next_id + 1) as u64,
                    ..old(self)@
                }),
                Err(e) => final (self)@ == old(self)@ && e == Error::NotFound && !(old(
                    self,
                )@.has_user(caller@) && old(self)@.has_course(course_id@)),
            },
    {
        let uat = match self.find_user(&caller) {
            Some(i) => i,
            None => {
                return Err(Error::NotFound);
            },
        };
        proof {
            assert(self@.users[uat as int].id == caller@);
            assert(self@.has_user(caller@));
            let j = user_index_in(self@.users, caller@);
            assert(0 <= j < self@.users.len() && self@.users[j].id == caller@);
            if uat as int != j {
                assert(false);
            }
        }
        let cat = match self.find_course(&course_id) {
            Some(i) => i,
            None => {
                return Err(Error::NotFound);
            },
        };
        let ghost pre = self@;
        let discussion = Discussion {
            id: u64_to_dec(self.next_id),
            course_id,
            author_id: caller,
            author_name: self.users[uat].name.clone(),
            title,
            content,
            replies: Vec::new(),
            created_at: now,
        };
        let ret = discussion.clone();
        self.discussions.push(discussion);
        self.next_id = self.next_id + 1;
        proof {
            let post = self@;
            let mid = StoreV { next_id: post.next_id, ..pre };
            assert(ret@.replies =~= Seq::<ReplyV>::empty());
            assert(post.discussions =~= pre.discussions.push(ret@));
            assert(post =~= (StoreV {
                discussions: pre.discussions.push(ret@),
                next_id: (pre.next_id + 1) as u64,
                ..pre
            }));
            lemma_wf_bump(pre, mid);
            assert forall|i: int| 0 <= i < mid.discussions.len() implies (
            #[trigger] mid.discussions[i]).id != ret@.id by {
                assert(discussion_ok(pre.discussions[i], pre.users, pre.courses, pre.next_id as nat));
                lemma_counter_id_fresh(pre.discussions[i].id, pre.next_id as nat);
            }
            assert(discussion_ok(ret@, mid.users, mid.courses, mid.next_id as nat)) by {
                assert((pre.next_id as nat) < (mid.next_id as nat) && ret@.id == dec_rep(
                    pre.next_id as nat,
                ));
                assert(mid.courses[cat as int].id == course_id@);
                assert(mid.users[uat as int].id == caller@);
            }
            lemma_wf_push_discussion(mid, post, ret@);
        }
        Ok(ret)
    }

    /// The discussions of one course, in table order.
    pub fn get_course_discussions(&self, course_id: String) -> (r: Vec<Discussion>)
        ensures
            discussion_views(r@) == discussions_of(self@.discussions, course_id@),
    {
        let mut r: Vec<Discussion> = Vec::new();
        let mut i: usize = 0;
        proof {
            assert(self@.discussions.take(0) =~= Seq::<DiscussionV>::empty());
        }
        while i < self.discussions.len()
            invariant
                i <= self.discussions.len(),
                discussion_views(r@) == discussions_of(
                    self@.discussions.take(i as int),
                    course_id@,
                ),
            decreases self.discussions.len() - i,
        {
            if self.discussions[i].course_id == course_id {
                r.push(self.discussions[i].clone());
            }
            proof {
                let s1 = self@.discussions.take(i as int + 1);
                assert(s1.drop_last() =~= self@.discussions.take(i as int));
                assert(s1.last() == self@.discussions[i as int]);
                assert(discussion_views(r@) =~= discussions_of(s1, course_id@));
            }
            i = i + 1;
        }
        proof {
            assert(self@.discussions.take(self@.discussions.len() as int) =~= self@.discussions);
        }
        r
    }

    /// Appends a reply to a discussion. Replies are never edited or removed.
    /// Fails `NotFound` when the caller has no record or the discussion is
    /// absent.
    pub fn reply_to_discussion(&mut self, caller: String, discussion_id: String, content: String, now: u64) -> (r:
        Result<(), Error>)
        requires
            old(self)@.wf(),
            old(self)@.next_id < u64::MAX,
        ensures
            final (self)@.wf(),
            match r {
                Ok(_) => ({
                    let pre = old(self)@;
                    let d = pre.discussion_named(discussion_id@);
                    let rv = ReplyV {
                        id: dec_rep(pre.next_id as nat),
                        author_id: caller@,
                        author_name: pre.user_named(caller@).name,
                        content: content@,
                        created_at: now,
                    };
                    pre.has_user(caller@) && pre.has_discussion(discussion_id@) && final (self)@
                        == (StoreV {
                        discussions: pre.discussions.update(
                            discussion_index_in(pre.discussions, discussion_id@),
                            (DiscussionV { replies: d.replies.push(rv), ..d }),
                        ),
                        next_id: (pre.next_id + 1) as u64,
                        ..pre
                    })
                }),
                Err(e) => final (self)@ == old(self)@ && e == Error::NotFound && !(old(
                    self,
                )@.has_user(caller@) && old(self)@.has_discussion(discussion_id@)),
            },
    {
        let uat = match self.find_user(&caller) {
            Some(i) => i,
            None => {
                return Err(Error::NotFound);
            },
        };
        proof {
            assert(self@.users[uat as int].id == caller@);
            assert(self@.has_user(caller@));
            let j = user_index_in(self@.users, caller@);
            assert(0 <= j < self@.users.len() && self@.users[j].id == caller@);
            if uat as int != j {
                assert(false);
            }
        }
        let dat = match self.find_discussion(&discussion_id) {
            Some(i) => i,
            None => {
                return Err(Error::NotFound);
            },
        };
        proof {
            assert(self@.discussions[dat as int].id == discussion_id@);
            assert(self@.has_discussion(discussion_id@));
            let j = discussion_index_in(self@.discussions, discussion_id@);
            assert(0 <= j < self@.discussions.len() && self@.discussions[j].id == discussion_id@);
            if dat as int != j {
                assert(false);
            }
        }
        let ghost pre = self@;
        let ghost dv = pre.discussions[dat as int];
        let reply = Reply {
            id: u64_to_dec(self.next_id),
            author_id: caller,
            author_name: self.users[uat].name.clone(),
            content,
            created_at: now,
        };
        let ghost rv = reply@;
        self.discussions[dat].replies.push(reply);
        self.next_id = self.next_id + 1;
        proof {
            let post = self@;
            let d2 = DiscussionV { replies: dv.replies.push(rv), ..dv };
            let mid = StoreV { next_id: post.next_id, ..pre };
            assert(post.discussions[dat as int].replies =~= dv.replies.push(rv));
            assert(post.discussions[dat as int] =~= d2);
            assert(post.discussions =~= pre.discussions.update(dat as int, d2));
            assert(post =~= (StoreV { discussions: pre.discussions.update(dat as int, d2), ..mid
            }));
            lemma_wf_bump(pre, mid);
            assert(discussion_ok(dv, pre.users, pre.courses, pre.next_id as nat));
            assert(discussion_ok(d2, mid.users, mid.courses, mid.next_id as nat)) by {
                lemma_counter_below_widen(d2.id, pre.next_id as nat, mid.next_id as nat);
                let n = dv.replies.len() as int;
                assert forall|a: int, b: int| 0 <= a < b < d2.replies.len() implies d2.replies[a].id
                    != d2.replies[b].id by {
                    if b < n {
                        assert(dv.replies[a].id != dv.replies[b].id);
                    } else {
                        assert(d2.replies[b] == rv);
                        assert(from_counter_below(dv.replies[a].id, pre.next_id as nat));
                        lemma_counter_id_fresh(dv.replies[a].id, pre.next_id as nat);
                    }
                }
                assert forall|a: int| 0 <= a < d2.replies.len() implies from_counter_below(
                    #[trigger] d2.replies[a].id,
                    mid.next_id as nat,
                ) by {
                    if a < n {
                        assert(from_counter_below(dv.replies[a].id, pre.next_id as nat));
                        lemma_counter_below_widen(
                            dv.replies[a].id,
                            pre.next_id as nat,
                            mid.next_id as nat,
                        );
                    } else {
                        assert(d2.replies[a] == rv);
                        assert((pre.next_id as nat) < (mid.next_id as nat) && rv.id == dec_rep(
                            pre.next_id as nat,
                        ));
                    }
                }
            }
            lemma_wf_update_discussion(mid, post, dat as int, d2);
        }
        Ok(())
    }
}

// ---------------------------------------------------------------------------
// Operations: certificates.
// ---------------------------------------------------------------------------

impl Store {
    /// Issues the once-only completion certificate for the caller's
    /// enrollment. Fails `NotFound` when the enrollment is absent,
    /// `Validation` when the course is not completed, `AlreadyExists` when a
    /// certificate was already issued; on success it appends the certificate
    /// and sets the enrollment's flag in the same step.
    pub fn issue_certificate(&mut self, caller: String, course_id: String, now: u64) -> (r: Result<
        Certificate,
        Error,
    >)
        requires
            old(self)@.wf(),
        ensures
            final (self)@.wf(),
            match r {
                Ok(c) => ({
                    let pre = old(self)@;
                    let e = pre.enrollment_named(caller@, course_id@);
                    let co = pre.course_named(course_id@);
                    let u = pre.user_named(caller@);
                    pre.has_enrollment(caller@, course_id@) && e.completed
                        && !e.certificate_issued && c@ == (CertificateV {
                        student_id: caller@,
                        course_id: course_id@,
                        course_title: co.title,
                        student_name: u.name,
                        instructor_name: co.instructor_name,
                        issued_at: now,
                        certificate_hash: hex_of(
                            sha256_of(cert_payload(u.name, co.title, co.instructor_name, now)),
                        ),
                    }) && final (self)@ == (StoreV {
                        enrollments: pre.enrollments.update(
                            enrollment_index_in(pre.enrollments, caller@, course_id@),
                            (EnrollmentV { certificate_issued: true, ..e }),
                        ),
                        certificates: pre.certificates.push(c@),
                        ..pre
                    })
                }),
                Err(e) => final (self)@ == old(self)@ && ((e == Error::NotFound && !old(
                    self,
                )@.has_enrollment(caller@, course_id@)) || (e == Error::Validation && old(
                    self,
                )@.has_enrollment(caller@, course_id@) && !old(self)@.enrollment_named(
                    caller@,
                    course_id@,
                ).completed) || (e == Error::AlreadyExists && old(self)@.has_enrollment(
                    caller@,
                    course_id@,
                ) && old(self)@.enrollment_named(caller@, course_id@).completed && old(
                    self,
                )@.enrollment_named(caller@, course_id@).certificate_issued)),
            },
    {
        let eat = match self.find_enrollment(&caller, &course_id) {
            Some(i) => i,
            None => {
                return Err(Error::NotFound);
            },
        };
        proof {
            assert(self@.enrollments[eat as int].student_id == caller@);
            assert(self@.has_enrollment(caller@, course_id@));
            let j = enrollment_index_in(self@.enrollments, caller@, course_id@);
            assert(0 <= j < self@.enrollments.len() && self@.enrollments[j].student_id == caller@
                && self@.enrollments[j].course_id == course_id@);
            if eat as int != j {
                assert(false);
            }
            assert(enrollment_ok(
                self@.enrollments[eat as int],
                self@.users,
                self@.courses,
                self@.certificates,
            ));
        }
        if !self.enrollments[eat].completed {
            return Err(Error::Validation);
        }
        if self.enrollments[eat].certificate_issued {
            return Err(Error::AlreadyExists);
        }
        let uat = match self.find_user(&caller) {
            Some(i) => i,
            None => {
                proof {
                    let w = choose|w: int|
                        0 <= w < self@.users.len() && self@.users[w].id
                            == self@.enrollments[eat as int].student_id && self@.users[w].role
                            == UserRole::Student;
                    assert(self@.has_user(caller@));
                    assert(false);
                }
                return Err(Error::NotFound);
            },
        };
        proof {
            assert(self@.users[uat as int].id == caller@);
            let j = user_index_in(self@.users, caller@);
            assert(0 <= j < self@.users.len() && self@.users[j].id == caller@);
            if uat as int != j {
                assert(false);
            }
        }
        let cat = match self.find_course(&course_id) {
            Some(i) => i,
            None => {
                proof {
                    let e = self@.enrollments[eat as int];
                    let w = choose|w: int|
                        0 <= w < self@.courses.len() && self@.courses[w].id == e.course_id && (
                        forall|j: int|
                            0 <= j < e.completed_lessons.len() ==> course_has_lesson(
                                self@.courses[w],
                                #[trigger] e.completed_lessons[j],
                            ));
                    assert(0 <= w < self@.courses.len() && self@.courses[w].id == course_id@);
                    assert(self@.has_course(course_id@));
                    assert(false);
                }
                return Err(Error::NotFound);
            },
        };
        proof {
            assert(self@.courses[cat as int].id == course_id@);
            let j = course_index_in(self@.courses, course_id@);
            assert(0 <= j < self@.courses.len() && self@.courses[j].id == course_id@);
            if cat as int != j {
                assert(false);
            }
        }
        let ghost pre = self@;
        let mut data = self.users[uat].name.clone();
        data.append("_");
        data.append(self.courses[cat].title.as_str());
        data.append("_");
        data.append(self.courses[cat].instructor_name.as_str());
        data.append("_");
        let ts = u64_to_dec(now);
        data.append(ts.as_str());
        proof {
            assert(data@ == cert_payload(
                pre.user_named(caller@).name,
                pre.course_named(course_id@).title,
                pre.course_named(course_id@).instructor_name,
                now,
            ));
        }
        let certificate_hash = crate::hashing::generate_hash(data.as_str());
        let cert = Certificate {
            student_id: caller,
            course_id,
            course_title: self.courses[cat].title.clone(),
            student_name: self.users[uat].name.clone(),
            instructor_name: self.courses[cat].instructor_name.clone(),
            issued_at: now,
            certificate_hash,
        };
        let ret = cert.clone();
        self.certificates.push(cert);
        self.enrollments[eat].certificate_issued = true;
        proof {
            let post = self@;
            let e2 = EnrollmentV { certificate_issued: true, ..pre.enrollments[eat as int] };
            assert(post.enrollments[eat as int] =~= e2);
            assert(post.enrollments =~= pre.enrollments.update(eat as int, e2));
            assert(post.certificates =~= pre.certificates.push(ret@));
            assert(post =~= (StoreV {
                enrollments: pre.enrollments.update(eat as int, e2),
                certificates: pre.certificates.push(ret@),
                ..pre
            }));
            lemma_wf_issue(pre, post, eat as int, ret@);
        }
        Ok(ret)
    }

    /// The caller's certificates, in log order.
    pub fn get_student_certificates(&self, caller: String) -> (r: Vec<Certificate>)
        ensures
            certificate_views(r@) == certificates_of(self@.certificates, caller@),
    {
        let mut r: Vec<Certificate> = Vec::new();
        let mut i: usize = 0;
        proof {
            assert(self@.certificates.take(0) =~= Seq::<CertificateV>::empty());
        }
        while i < self.certificates.len()
            invariant
                i <= self.certificates.len(),
                certificate_views(r@) == certificates_of(
                    self@.certificates.take(i as int),
                    caller@,
                ),
            decreases self.certificates.len() - i,
        {
            if self.certificates[i].student_id == caller {
                r.push(self.certificates[i].clone());
            }
            proof {
                let s1 = self@.certificates.take(i as int + 1);
                assert(s1.drop_last() =~= self@.certificates.take(i as int));
                assert(s1.last() == self@.certificates[i as int]);
                assert(certificate_views(r@) =~= certificates_of(s1, caller@));
            }
            i = i + 1;
        }
        proof {
            assert(self@.certificates.take(self@.certificates.len() as int) =~= self@.certificates);
        }
        r
    }

    /// The first certificate in the log bearing the given fingerprint, if
    /// any.
    pub fn verify_certificate(&self, certificate_hash: String) -> (r: Option<Certificate>)
        ensures
            match r {
                Some(c) => exists|i: int|
                    0 <= i < self@.certificates.len() && (#[trigger] self@.certificates[i]).certificate_hash
                        == certificate_hash@ && c@ == self@.certificates[i] && (forall|j: int|
                        0 <= j < i ==> self@.certificates[j].certificate_hash
                            != certificate_hash@),
                None => forall|i: int|
                    0 <= i < self@.certificates.len() ==> (#[trigger] self@.certificates[i]).certificate_hash
                        != certificate_hash@,
            },
    {
        let mut i: usize = 0;
        while i < self.certificates.len()
            invariant
                i <= self.certificates.len(),
                forall|j: int|
                    0 <= j < i ==> self@.certificates[j].certificate_hash != certificate_hash@,
            decreases self.certificates.len() - i,
        {
            if self.certificates[i].certificate_hash == certificate_hash {
                let c = self.certificates[i].clone();
                proof {
                    assert(self@.certificates[i as int].certificate_hash == certificate_hash@);
                }
                return Some(c);
            }
            i = i + 1;
        }
        None
    }
}

// ---------------------------------------------------------------------------
// Laws: properties of every well-formed store, stated on their own.
// ---------------------------------------------------------------------------

/// In every well-formed store, every enrollment's progress percentage lies in
/// [0, 100], and its `completed` flag holds exactly when the percentage is
/// 100.
pub proof fn lemma_progress_in_range(s: StoreV, i: int)
    requires
        s.wf(),
        0 <= i < s.enrollments.len(),
    ensures
        s.enrollments[i].progress_percentage <= 100,
        s.enrollments[i].completed <==> s.enrollments[i].progress_percentage == 100,
{
    assert(enrollment_ok(s.enrollments[i], s.users, s.courses, s.certificates));
}

/// In every well-formed store, at most one certificate exists per
/// (student, course): two log entries with the same key are the same entry.
pub proof fn lemma_certificate_unique(s: StoreV, i: int, j: int)
    requires
        s.wf(),
        0 <= i < s.certificates.len(),
        0 <= j < s.certificates.len(),
        s.certificates[i].student_id == s.certificates[j].student_id,
        s.certificates[i].course_id == s.certificates[j].course_id,
    ensures
        i == j,
{
    if i < j {
        assert(!(s.certificates[i].student_id == s.certificates[j].student_id
            && s.certificates[i].course_id == s.certificates[j].course_id));
    }
    if j < i {
        assert(!(s.certificates[j].student_id == s.certificates[i].student_id
            && s.certificates[j].course_id == s.certificates[i].course_id));
    }
}

/// In every well-formed store, a certificate exists for (student, course)
/// exactly when that enrollment's `certificate_issued` flag is set.
pub proof fn lemma_certificate_flag(s: StoreV, student: Seq<char>, course: Seq<char>)
    requires
        s.wf(),
        s.has_enrollment(student, course),
    ensures
        s.enrollment_named(student, course).certificate_issued <==> s.has_certificate_for(
            student,
            course,
        ),
{
    let at = enrollment_index_in(s.enrollments, student, course);
    assert(0 <= at < s.enrollments.len() && s.enrollments[at].student_id == student
        && s.enrollments[at].course_id == course);
    if s.enrollments[at].certificate_issued {
        assert(enrollment_ok(s.enrollments[at], s.users, s.courses, s.certificates));
    }
    if s.has_certificate_for(student, course) {
        let ci = choose|ci: int|
            0 <= ci < s.certificates.len() && s.certificates[ci].student_id == student
                && s.certificates[ci].course_id == course;
        assert(enrollment_flagged_in(
            s.enrollments,
            s.certificates[ci].student_id,
            s.certificates[ci].course_id,
        ));
        let k = choose|k: int|
            0 <= k < s.enrollments.len() && s.enrollments[k].student_id == student
                && s.enrollments[k].course_id == course && s.enrollments[k].certificate_issued;
        if k != at {
            assert(!(s.enrollments[k].student_id == s.enrollments[at].student_id
                && s.enrollments[k].course_id == s.enrollments[at].course_id));
        }
    }
}

} // verus!
