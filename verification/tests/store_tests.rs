use web3_university::hashing::generate_hash;
use web3_university::store::Store;
use web3_university::types::{Error, Question, UserRole};

fn s(x: &str) -> String {
    x.to_string()
}

fn store_with_teacher() -> Store {
    let mut st = Store::new();
    st.create_user(s("t1"), s("Prof Ada"), UserRole::Teacher, s("bio"), s("photo"), 10).unwrap();
    st
}

fn store_with_course_two_lessons() -> (Store, String, String, String) {
    let mut st = store_with_teacher();
    let course = st.create_course(s("t1"), s("Blockchain 101"), s("Intro"), 20).unwrap();
    st.add_lesson_to_course(s("t1"), course.id.clone(), s("A"), s("a"), None, 1, 21).unwrap();
    st.add_lesson_to_course(s("t1"), course.id.clone(), s("B"), s("b"), None, 2, 22).unwrap();
    let c = st.get_course(course.id.clone()).unwrap();
    let la = c.lessons[0].id.clone();
    let lb = c.lessons[1].id.clone();
    (st, course.id, la, lb)
}

#[test]
fn create_user_then_duplicate_fails_already_exists() {
    let mut st = Store::new();
    let u = st.create_user(s("u1"), s("Ann"), UserRole::Student, s("b"), s("p"), 5).unwrap();
    assert_eq!(u.name, "Ann");
    let second = st.create_user(s("u1"), s("Other"), UserRole::Teacher, s("x"), s("y"), 6);
    assert_eq!(second.unwrap_err(), Error::AlreadyExists);
    // the first record is untouched
    let got = st.get_user(s("u1")).unwrap();
    assert_eq!(got.name, "Ann");
    assert!(matches!(got.role, UserRole::Student));
    assert_eq!(got.created_at, 5);
}

#[test]
fn get_user_absent_is_none() {
    let st = Store::new();
    assert!(st.get_user(s("nobody")).is_none());
}

#[test]
fn update_user_profile_keeps_role_and_fails_not_found() {
    let mut st = Store::new();
    assert_eq!(st.update_user_profile(s("u1"), s("N"), s("B"), s("P")).unwrap_err(), Error::NotFound);
    st.create_user(s("u1"), s("Ann"), UserRole::Student, s("b"), s("p"), 5).unwrap();
    let u = st.update_user_profile(s("u1"), s("Anna"), s("bb"), s("pp")).unwrap();
    assert_eq!(u.name, "Anna");
    assert!(matches!(u.role, UserRole::Student));
    assert_eq!(u.created_at, 5);
}

#[test]
fn only_teachers_create_courses() {
    let mut st = Store::new();
    assert_eq!(st.create_course(s("ghost"), s("T"), s("D"), 1).unwrap_err(), Error::NotFound);
    st.create_user(s("stu"), s("Sam"), UserRole::Student, s("b"), s("p"), 1).unwrap();
    assert_eq!(st.create_course(s("stu"), s("T"), s("D"), 2).unwrap_err(), Error::Unauthorized);
    st.create_user(s("t1"), s("Ada"), UserRole::Teacher, s("b"), s("p"), 1).unwrap();
    let c = st.create_course(s("t1"), s("T"), s("D"), 3).unwrap();
    assert_eq!(c.instructor_id, "t1");
    assert_eq!(c.instructor_name, "Ada");
    assert!(c.lessons.is_empty());
}

#[test]
fn generated_ids_are_counter_values() {
    let mut st = store_with_teacher();
    let c1 = st.create_course(s("t1"), s("One"), s("d"), 1).unwrap();
    let c2 = st.create_course(s("t1"), s("Two"), s("d"), 2).unwrap();
    assert_eq!(c1.id, "0");
    assert_eq!(c2.id, "1");
    st.add_lesson_to_course(s("t1"), c1.id.clone(), s("L"), s("c"), None, 1, 3).unwrap();
    let c = st.get_course(c1.id.clone()).unwrap();
    assert_eq!(c.lessons[0].id, "2");
}

#[test]
fn lessons_stay_sorted_by_order() {
    let mut st = store_with_teacher();
    let c = st.create_course(s("t1"), s("T"), s("D"), 1).unwrap();
    st.add_lesson_to_course(s("t1"), c.id.clone(), s("third"), s("x"), None, 30, 2).unwrap();
    st.add_lesson_to_course(s("t1"), c.id.clone(), s("first"), s("x"), None, 10, 3).unwrap();
    st.add_lesson_to_course(s("t1"), c.id.clone(), s("second"), s("x"), Some(s("v")), 20, 4).unwrap();
    let got = st.get_course(c.id.clone()).unwrap();
    let titles: Vec<&str> = got.lessons.iter().map(|l| l.title.as_str()).collect();
    assert_eq!(titles, vec!["first", "second", "third"]);
    assert_eq!(got.lessons[1].video_url, Some(s("v")));
    assert_eq!(got.updated_at, 4);
}

#[test]
fn non_instructor_cannot_add_lessons() {
    let (mut st, course_id, _, _) = store_with_course_two_lessons();
    st.create_user(s("t2"), s("Eve"), UserRole::Teacher, s("b"), s("p"), 1).unwrap();
    let r = st.add_lesson_to_course(s("t2"), course_id.clone(), s("X"), s("x"), None, 9, 99);
    assert_eq!(r.unwrap_err(), Error::Unauthorized);
    // the course's lesson list is unchanged
    let c = st.get_course(course_id).unwrap();
    assert_eq!(c.lessons.len(), 2);
    assert_eq!(c.updated_at, 22);
}

#[test]
fn search_courses_is_case_insensitive_over_title_and_description() {
    let mut st = store_with_teacher();
    st.create_course(s("t1"), s("Blockchain 101"), s("chains"), 1).unwrap();
    st.create_course(s("t1"), s("Knitting"), s("unblocking concepts"), 2).unwrap();
    st.create_course(s("t1"), s("Cooking"), s("pasta"), 3).unwrap();
    let hits = st.search_courses(s("block"));
    assert_eq!(hits.len(), 2);
    assert_eq!(hits[0].title, "Blockchain 101");
    assert_eq!(hits[1].title, "Knitting");
    assert!(st.search_courses(s("BLOCK")).len() == 2);
    assert!(st.search_courses(s("quantum")).is_empty());
    assert_eq!(st.get_all_courses().len(), 3);
}

#[test]
fn enrollment_guards() {
    let (mut st, course_id, _, _) = store_with_course_two_lessons();
    assert_eq!(st.enroll_in_course(s("ghost"), course_id.clone(), 1).unwrap_err(), Error::NotFound);
    assert_eq!(st.enroll_in_course(s("t1"), course_id.clone(), 1).unwrap_err(), Error::Unauthorized);
    st.create_user(s("stu"), s("Sam"), UserRole::Student, s("b"), s("p"), 1).unwrap();
    assert_eq!(st.enroll_in_course(s("stu"), s("no-such-course"), 1).unwrap_err(), Error::NotFound);
    let e = st.enroll_in_course(s("stu"), course_id.clone(), 30).unwrap();
    assert_eq!(e.progress_percentage, 0);
    assert!(!e.completed);
    assert!(!e.certificate_issued);
    assert_eq!(st.enroll_in_course(s("stu"), course_id, 31).unwrap_err(), Error::AlreadyExists);
    assert_eq!(st.get_student_enrollments(s("stu")).len(), 1);
}

#[test]
fn progress_over_two_lessons_and_certificate_once() {
    let (mut st, course_id, la, lb) = store_with_course_two_lessons();
    st.create_user(s("stu"), s("Sam"), UserRole::Student, s("b"), s("p"), 1).unwrap();
    st.enroll_in_course(s("stu"), course_id.clone(), 30).unwrap();
    // certificate before completion is a validation failure
    assert_eq!(st.issue_certificate(s("stu"), course_id.clone(), 40).unwrap_err(), Error::Validation);
    st.mark_lesson_completed(s("stu"), course_id.clone(), la).unwrap();
    let e = &st.get_student_enrollments(s("stu"))[0];
    assert_eq!(e.progress_percentage, 50);
    assert!(!e.completed);
    st.mark_lesson_completed(s("stu"), course_id.clone(), lb).unwrap();
    let e = &st.get_student_enrollments(s("stu"))[0];
    assert_eq!(e.progress_percentage, 100);
    assert!(e.completed);
    let cert = st.issue_certificate(s("stu"), course_id.clone(), 50).unwrap();
    assert_eq!(cert.student_name, "Sam");
    assert_eq!(cert.course_title, "Blockchain 101");
    assert_eq!(cert.instructor_name, "Prof Ada");
    // the second issuance always fails, and exactly one record exists
    assert_eq!(st.issue_certificate(s("stu"), course_id, 60).unwrap_err(), Error::AlreadyExists);
    assert_eq!(st.get_student_certificates(s("stu")).len(), 1);
}

#[test]
fn marking_a_lesson_twice_is_idempotent() {
    let (mut st, course_id, la, _) = store_with_course_two_lessons();
    st.create_user(s("stu"), s("Sam"), UserRole::Student, s("b"), s("p"), 1).unwrap();
    st.enroll_in_course(s("stu"), course_id.clone(), 30).unwrap();
    st.mark_lesson_completed(s("stu"), course_id.clone(), la.clone()).unwrap();
    let before = st.get_student_enrollments(s("stu"));
    st.mark_lesson_completed(s("stu"), course_id, la).unwrap();
    let after = st.get_student_enrollments(s("stu"));
    assert_eq!(before.len(), after.len());
    assert_eq!(before[0].completed_lessons, after[0].completed_lessons);
    assert_eq!(before[0].progress_percentage, after[0].progress_percentage);
    assert_eq!(before[0].completed, after[0].completed);
}

#[test]
fn marking_an_unknown_lesson_fails_not_found() {
    let (mut st, course_id, _, _) = store_with_course_two_lessons();
    st.create_user(s("stu"), s("Sam"), UserRole::Student, s("b"), s("p"), 1).unwrap();
    assert_eq!(
        st.mark_lesson_completed(s("stu"), course_id.clone(), s("zzz")).unwrap_err(),
        Error::NotFound
    );
    st.enroll_in_course(s("stu"), course_id.clone(), 30).unwrap();
    assert_eq!(
        st.mark_lesson_completed(s("stu"), course_id, s("zzz")).unwrap_err(),
        Error::NotFound
    );
}

fn two_question_quiz(st: &mut Store, course_id: String, lesson_id: String) -> String {
    let questions = vec![
        Question {
            id: s("q1"),
            question: s("first?"),
            options: vec![s("x"), s("y")],
            correct_answer: 0,
            points: 10,
        },
        Question {
            id: s("q2"),
            question: s("second?"),
            options: vec![s("x"), s("y"), s("z")],
            correct_answer: 2,
            points: 20,
        },
    ];
    st.create_quiz(s("t1"), course_id, lesson_id, s("Quiz"), questions, 20, 70).unwrap().id
}

#[test]
fn quiz_creation_is_guarded_and_attaches_to_lesson() {
    let (mut st, course_id, la, _) = store_with_course_two_lessons();
    st.create_user(s("t2"), s("Eve"), UserRole::Teacher, s("b"), s("p"), 1).unwrap();
    let r = st.create_quiz(s("t2"), course_id.clone(), la.clone(), s("Q"), vec![], 0, 70);
    assert_eq!(r.unwrap_err(), Error::Unauthorized);
    let r = st.create_quiz(s("t1"), s("nope"), la.clone(), s("Q"), vec![], 0, 70);
    assert_eq!(r.unwrap_err(), Error::NotFound);
    let quiz_id = two_question_quiz(&mut st, course_id.clone(), la.clone());
    let c = st.get_course(course_id).unwrap();
    assert_eq!(c.lessons[0].quiz_id, Some(quiz_id.clone()));
    let q = st.get_quiz(quiz_id).unwrap();
    assert_eq!(q.lesson_id, la);
    assert_eq!(q.questions.len(), 2);
}

#[test]
fn scoring_sums_points_of_matching_answers() {
    let (mut st, course_id, la, _) = store_with_course_two_lessons();
    let quiz_id = two_question_quiz(&mut st, course_id, la);
    st.create_user(s("stu"), s("Sam"), UserRole::Student, s("b"), s("p"), 1).unwrap();
    // only the second answer matches: 20 points, passing_score 20 is met
    let a = st.attempt_quiz(s("stu"), quiz_id.clone(), vec![1, 2], 80).unwrap();
    assert_eq!(a.score, 20);
    assert!(a.passed);
    // no answer matches
    let a = st.attempt_quiz(s("stu"), quiz_id.clone(), vec![1, 0], 81).unwrap();
    assert_eq!(a.score, 0);
    assert!(!a.passed);
    // both match
    let a = st.attempt_quiz(s("stu"), quiz_id, vec![0, 2], 82).unwrap();
    assert_eq!(a.score, 30);
    assert!(a.passed);
}

#[test]
fn attempt_with_wrong_answer_count_fails_validation() {
    let (mut st, course_id, la, _) = store_with_course_two_lessons();
    let quiz_id = two_question_quiz(&mut st, course_id, la);
    assert_eq!(st.attempt_quiz(s("stu"), s("none"), vec![0], 80).unwrap_err(), Error::NotFound);
    assert_eq!(st.attempt_quiz(s("stu"), quiz_id.clone(), vec![0], 80).unwrap_err(), Error::Validation);
    assert_eq!(
        st.attempt_quiz(s("stu"), quiz_id, vec![0, 1, 2], 80).unwrap_err(),
        Error::Validation
    );
}

#[test]
fn discussions_and_replies() {
    let (mut st, course_id, _, _) = store_with_course_two_lessons();
    assert_eq!(
        st.create_discussion(s("ghost"), course_id.clone(), s("T"), s("C"), 1).unwrap_err(),
        Error::NotFound
    );
    assert_eq!(
        st.create_discussion(s("t1"), s("nope"), s("T"), s("C"), 1).unwrap_err(),
        Error::NotFound
    );
    st.create_user(s("stu"), s("Sam"), UserRole::Student, s("b"), s("p"), 1).unwrap();
    let d = st.create_discussion(s("stu"), course_id.clone(), s("Help"), s("lost"), 90).unwrap();
    assert_eq!(d.author_name, "Sam");
    assert!(d.replies.is_empty());
    assert_eq!(
        st.reply_to_discussion(s("t1"), s("nope"), s("hi"), 91).unwrap_err(),
        Error::NotFound
    );
    st.reply_to_discussion(s("t1"), d.id.clone(), s("read lesson two"), 91).unwrap();
    st.reply_to_discussion(s("stu"), d.id.clone(), s("thanks"), 92).unwrap();
    let ds = st.get_course_discussions(course_id);
    assert_eq!(ds.len(), 1);
    assert_eq!(ds[0].replies.len(), 2);
    assert_eq!(ds[0].replies[0].author_name, "Prof Ada");
    assert_eq!(ds[0].replies[1].content, "thanks");
    assert!(st.get_course_discussions(s("other")).is_empty());
}

#[test]
fn certificates_can_be_verified_by_fingerprint() {
    let (mut st, course_id, la, lb) = store_with_course_two_lessons();
    st.create_user(s("stu"), s("Sam"), UserRole::Student, s("b"), s("p"), 1).unwrap();
    st.enroll_in_course(s("stu"), course_id.clone(), 30).unwrap();
    st.mark_lesson_completed(s("stu"), course_id.clone(), la).unwrap();
    st.mark_lesson_completed(s("stu"), course_id.clone(), lb).unwrap();
    let cert = st.issue_certificate(s("stu"), course_id, 50).unwrap();
    let found = st.verify_certificate(cert.certificate_hash.clone()).unwrap();
    assert_eq!(found.student_id, "stu");
    assert_eq!(found.certificate_hash, cert.certificate_hash);
    assert!(st.verify_certificate(s("no-such-hash")).is_none());
    // the fingerprint is the hex SHA-256 of the payload
    assert_eq!(cert.certificate_hash, generate_hash("Sam_Blockchain 101_Prof Ada_50"));
}

#[test]
fn issue_certificate_without_enrollment_fails_not_found() {
    let (mut st, course_id, _, _) = store_with_course_two_lessons();
    assert_eq!(st.issue_certificate(s("stu"), course_id, 50).unwrap_err(), Error::NotFound);
}

#[test]
fn generate_hash_is_hex_sha256() {
    assert_eq!(
        generate_hash(""),
        "e3b0c44298fc1c149afbf4c8996fb92427ae41e4649b934ca495991b7852b855"
    );
    assert_eq!(
        generate_hash("abc"),
        "ba7816bf8f01cfea414140de5dae2223b00361a396177a9cb410ff61f20015ad"
    );
}
